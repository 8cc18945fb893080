//! The mathematical model of the machine: an abstract state record and
//! the transition functions that say, instruction by instruction, what
//! one execution cycle does to it.  The execution engine's contracts
//! are stated over this model.

use vstd::prelude::*;

use crate::display::all_off;
use crate::display::blit;
use crate::display::blit_collision;
use crate::fontset::font_data;
use crate::input::no_keys;
use crate::instructions::Instruction;
use crate::instructions::spec_decode;

verus! {

/// One step of the program counter, as decided by an instruction:
/// advance one instruction, skip one, or jump to an address.
#[derive(Debug, PartialEq, Eq, Structural)]
pub enum ProgramCounter {
    Next,
    Skip,
    Jump(u16),
}

/// Why a cycle was refused: the two call-stack violations, a memory
/// access outside the 4096 bytes, and a key lookup outside the 16-key
/// space.
#[derive(Clone, Copy, Debug, PartialEq, Eq, Structural)]
pub enum FaultKind {
    StackOverflow,
    StackUnderflow,
    MemoryOutOfBounds,
    KeyOutOfRange,
}

/// The diagnostic surfaced when a cycle is refused: what went wrong,
/// where the program counter stood, the opcode in hand (zero when the
/// fetch itself was out of bounds), and the stack depth.
#[derive(Clone, Copy, Debug, PartialEq, Eq, Structural)]
pub struct Fault {
    pub kind: FaultKind,
    pub program_counter: u16,
    pub op_code: u16,
    pub stack_pointer: usize,
}

/// The abstract machine state.
#[verifier::ext_equal]
pub ghost struct Core {
    pub memory: Seq<u8>,
    pub registers: Seq<u8>,
    pub index: u16,
    pub program_counter: u16,
    pub delay_timer: u8,
    pub sound_timer: u8,
    pub stack: Seq<u16>,
    pub stack_pointer: int,
    pub waiting_for_key: Option<u8>,
    pub pixels: Seq<bool>,
    pub keypad: Seq<bool>,
    pub should_draw: bool,
}

impl Core {
    /// Structural soundness: every container has its fixed size, the
    /// stack pointer stays within the 16 frames, and a pending
    /// wait-for-key names a real register.
    pub open spec fn wf(&self) -> bool {
        &&& self.memory.len() == 4096
        &&& self.registers.len() == 16
        &&& self.stack.len() == 16
        &&& self.pixels.len() == 2048
        &&& self.keypad.len() == 16
        &&& 0 <= self.stack_pointer <= 16
        &&& match self.waiting_for_key {
            Some(r) => r < 16,
            None => true,
        }
    }
}

/// Memory as freshly powered on: the font table in the first eighty
/// bytes, zero everywhere else.
pub open spec fn initial_memory() -> Seq<u8> {
    Seq::new(4096, |i: int| if i < 80 { font_data()[i] } else { 0u8 })
}

/// All sixteen registers zero.
pub open spec fn zero_registers() -> Seq<u8> {
    Seq::new(16, |i: int| 0u8)
}

/// All sixteen stack frames zero.
pub open spec fn zero_stack() -> Seq<u16> {
    Seq::new(16, |i: int| 0u16)
}

/// The state a fresh machine starts in, and the state `reset` returns
/// to apart from the loaded program area.
pub open spec fn initial_core() -> Core {
    Core {
        memory: initial_memory(),
        registers: zero_registers(),
        index: 0,
        program_counter: 0x200,
        delay_timer: 0,
        sound_timer: 0,
        stack: zero_stack(),
        stack_pointer: 0,
        waiting_for_key: None,
        pixels: all_off(),
        keypad: no_keys(),
        should_draw: false,
    }
}

/// Memory with a cartridge of `buf.len()` bytes copied in verbatim
/// from offset 0x200.
pub open spec fn loaded_memory(m: Seq<u8>, buf: Seq<u8>) -> Seq<u8> {
    Seq::new(4096, |i: int| if 512 <= i < 512 + buf.len() { buf[i - 512] } else { m[i] })
}

/// Memory with everything from offset 0x200 upward cleared; the font
/// area below is kept.
pub open spec fn reset_memory(m: Seq<u8>) -> Seq<u8> {
    Seq::new(4096, |i: int| if i < 512 { m[i] } else { 0u8 })
}

/// Addition modulo 256, the well-defined wrap of 8-bit arithmetic.
pub open spec fn wrap_add8(a: u8, b: u8) -> u8 {
    ((a + b) % 256) as u8
}

/// Subtraction modulo 256.
pub open spec fn wrap_sub8(a: u8, b: u8) -> u8 {
    ((a - b) % 256) as u8
}

/// Addition modulo 65536, the well-defined wrap of 16-bit arithmetic.
pub open spec fn wrap_add16(a: u16, b: u16) -> u16 {
    ((a + b) % 0x10000) as u16
}

/// Memory after a register dump: registers 0 through `limit` written
/// at `idx` onward, everything else untouched.
pub open spec fn dumped_memory(m: Seq<u8>, regs: Seq<u8>, idx: int, limit: int) -> Seq<u8> {
    Seq::new(m.len(), |j: int| if idx <= j <= idx + limit { regs[j - idx] } else { m[j] })
}

/// Registers after a register load: registers 0 through `limit` read
/// from `idx` onward, the rest untouched.
pub open spec fn loaded_registers(regs: Seq<u8>, m: Seq<u8>, idx: int, limit: int) -> Seq<u8> {
    Seq::new(regs.len(), |j: int| if 0 <= j <= limit { m[idx + j] } else { regs[j] })
}

/// The two-byte opcode fetched at the program counter, most
/// significant byte first.
pub open spec fn fetch(pre: Core) -> u16 {
    (pre.memory[pre.program_counter as int] * 256 + pre.memory[pre.program_counter + 1]) as u16
}

/// The condition under which an instruction cannot be applied to a
/// state: stack depth violations and out-of-range accesses.  `None`
/// means the instruction goes through.
pub open spec fn step_fault(pre: Core, inst: Instruction) -> Option<FaultKind> {
    match inst {
        Instruction::Return => if pre.stack_pointer == 0 {
            Some(FaultKind::StackUnderflow)
        } else {
            None
        },
        Instruction::Call(_) => if pre.stack_pointer >= 16 {
            Some(FaultKind::StackOverflow)
        } else {
            None
        },
        Instruction::Draw { x, y, height } => if pre.index + height > 4096 {
            Some(FaultKind::MemoryOutOfBounds)
        } else {
            None
        },
        Instruction::StoreBCD(_) => if pre.index + 2 >= 4096 {
            Some(FaultKind::MemoryOutOfBounds)
        } else {
            None
        },
        Instruction::DumpRegisters(limit) => if pre.index + limit >= 4096 {
            Some(FaultKind::MemoryOutOfBounds)
        } else {
            None
        },
        Instruction::LoadRegisters(limit) => if pre.index + limit >= 4096 {
            Some(FaultKind::MemoryOutOfBounds)
        } else {
            None
        },
        Instruction::SkipIfKeyPressed(x) => if pre.registers[x as int] >= 16 {
            Some(FaultKind::KeyOutOfRange)
        } else {
            None
        },
        Instruction::SkipIfKeyNotPressed(x) => if pre.registers[x as int] >= 16 {
            Some(FaultKind::KeyOutOfRange)
        } else {
            None
        },
        _ => None,
    }
}

/// What an instruction does to the state, program counter aside.
/// `rnd` is the byte drawn from the randomness source; only the
/// random instruction reads it.  Meaningful when `pre.wf()`, the
/// instruction's operands are in range (as decoding guarantees) and
/// `step_fault` is `None`.
pub open spec fn step_state(pre: Core, inst: Instruction, rnd: u8) -> Core {
    match inst {
        Instruction::CallMachineCode(_) => pre,
        Instruction::ClearDisplay => Core { pixels: all_off(), should_draw: true, ..pre },
        Instruction::Return => Core { stack_pointer: pre.stack_pointer - 1, ..pre },
        Instruction::GoTo(_) => pre,
        Instruction::Call(_) => Core {
            stack: pre.stack.update(pre.stack_pointer, (pre.program_counter + 2) as u16),
            stack_pointer: pre.stack_pointer + 1,
            ..pre
        },
        Instruction::SkipIfEqual(_) => pre,
        Instruction::SkipIfDifferent(_) => pre,
        Instruction::SkipIfRegisterEqual(_) => pre,
        Instruction::AssignValueToRegister(rv) => Core {
            registers: pre.registers.update(rv.register as int, rv.value),
            ..pre
        },
        Instruction::AddValueToRegister(rv) => Core {
            registers: pre.registers.update(
                rv.register as int,
                wrap_add8(pre.registers[rv.register as int], rv.value),
            ),
            ..pre
        },
        Instruction::AssignVYToVX(ts) => Core {
            registers: pre.registers.update(ts.target as int, pre.registers[ts.source as int]),
            ..pre
        },
        Instruction::SetXOrY(ts) => Core {
            registers: pre.registers.update(
                ts.target as int,
                pre.registers[ts.target as int] | pre.registers[ts.source as int],
            ),
            ..pre
        },
        Instruction::SetXAndY(ts) => Core {
            registers: pre.registers.update(
                ts.target as int,
                pre.registers[ts.target as int] & pre.registers[ts.source as int],
            ),
            ..pre
        },
        Instruction::SetXXorY(ts) => Core {
            registers: pre.registers.update(
                ts.target as int,
                pre.registers[ts.target as int] ^ pre.registers[ts.source as int],
            ),
            ..pre
        },
        Instruction::AddYToX(ts) => {
            let vx = pre.registers[ts.target as int];
            let vy = pre.registers[ts.source as int];
            let flag: u8 = if vx + vy > 255 {
                1
            } else {
                0
            };
            Core {
                registers: pre.registers.update(15, flag).update(
                    ts.target as int,
                    wrap_add8(vx, vy),
                ),
                ..pre
            }
        },
        Instruction::SubYFromX(ts) => {
            let vx = pre.registers[ts.target as int];
            let vy = pre.registers[ts.source as int];
            let flag: u8 = if vx >= vy {
                1
            } else {
                0
            };
            Core {
                registers: pre.registers.update(15, flag).update(
                    ts.target as int,
                    wrap_sub8(vx, vy),
                ),
                ..pre
            }
        },
        Instruction::ShiftRight(x) => {
            let vx = pre.registers[x as int];
            Core {
                registers: pre.registers.update(15, vx & 1).update(x as int, vx >> 1),
                ..pre
            }
        },
        Instruction::SetXAsYMinusX(ts) => {
            let vx = pre.registers[ts.target as int];
            let vy = pre.registers[ts.source as int];
            let flag: u8 = if vy >= vx {
                1
            } else {
                0
            };
            Core {
                registers: pre.registers.update(15, flag).update(
                    ts.target as int,
                    wrap_sub8(vy, vx),
                ),
                ..pre
            }
        },
        Instruction::ShiftLeft(x) => {
            let vx = pre.registers[x as int];
            Core {
                registers: pre.registers.update(15, vx >> 7).update(x as int, vx << 1),
                ..pre
            }
        },
        Instruction::SkipIfRegisterDifferent(_) => pre,
        Instruction::SetIAs(value) => Core { index: value, ..pre },
        Instruction::GoToNPlusV0(_) => pre,
        Instruction::Random(rv) => Core {
            registers: pre.registers.update(rv.register as int, rnd & rv.value),
            ..pre
        },
        Instruction::Draw { x, y, height } => {
            let vx = pre.registers[x as int];
            let vy = pre.registers[y as int];
            let sprite = pre.memory.subrange(pre.index as int, pre.index + height);
            let hit = blit_collision(pre.pixels, vx as int, vy as int, sprite);
            Core {
                pixels: blit(pre.pixels, vx as int, vy as int, sprite),
                registers: pre.registers.update(15, if hit { 1u8 } else { 0u8 }),
                should_draw: true,
                ..pre
            }
        },
        Instruction::SkipIfKeyPressed(_) => pre,
        Instruction::SkipIfKeyNotPressed(_) => pre,
        Instruction::SetXAsDelay(x) => Core {
            registers: pre.registers.update(x as int, pre.delay_timer),
            ..pre
        },
        Instruction::WaitForInputAndStoreIn(x) => Core { waiting_for_key: Some(x), ..pre },
        Instruction::SetDelayAsX(x) => Core { delay_timer: pre.registers[x as int], ..pre },
        Instruction::SetSoundAsX(x) => Core { sound_timer: pre.registers[x as int], ..pre },
        Instruction::AddXToI(x) => Core {
            index: wrap_add16(pre.index, pre.registers[x as int] as u16),
            ..pre
        },
        Instruction::SetIAsFontSprite(x) => Core {
            index: (pre.registers[x as int] * 5) as u16,
            ..pre
        },
        Instruction::StoreBCD(x) => {
            let v = pre.registers[x as int];
            let i = pre.index as int;
            Core {
                memory: pre.memory.update(i, v / 100).update(i + 1, (v % 100) / 10).update(
                    i + 2,
                    v % 10,
                ),
                ..pre
            }
        },
        Instruction::DumpRegisters(limit) => Core {
            memory: dumped_memory(pre.memory, pre.registers, pre.index as int, limit as int),
            index: (pre.index + limit + 1) as u16,
            ..pre
        },
        Instruction::LoadRegisters(limit) => Core {
            registers: loaded_registers(pre.registers, pre.memory, pre.index as int, limit as int),
            index: (pre.index + limit + 1) as u16,
            ..pre
        },
        Instruction::InvalidInstruction => pre,
    }
}

/// How an instruction moves the program counter.  Deterministic and
/// independent of the randomness source.
pub open spec fn step_pc(pre: Core, inst: Instruction) -> ProgramCounter {
    match inst {
        Instruction::Return => ProgramCounter::Jump(pre.stack[pre.stack_pointer - 1]),
        Instruction::GoTo(addr) => ProgramCounter::Jump(addr),
        Instruction::Call(addr) => ProgramCounter::Jump(addr),
        Instruction::GoToNPlusV0(addr) => ProgramCounter::Jump(
            (addr + pre.registers[0]) as u16,
        ),
        Instruction::SkipIfEqual(rv) => if pre.registers[rv.register as int] == rv.value {
            ProgramCounter::Skip
        } else {
            ProgramCounter::Next
        },
        Instruction::SkipIfDifferent(rv) => if pre.registers[rv.register as int] != rv.value {
            ProgramCounter::Skip
        } else {
            ProgramCounter::Next
        },
        Instruction::SkipIfRegisterEqual(ts) => if pre.registers[ts.target as int]
            == pre.registers[ts.source as int] {
            ProgramCounter::Skip
        } else {
            ProgramCounter::Next
        },
        Instruction::SkipIfRegisterDifferent(ts) => if pre.registers[ts.target as int]
            != pre.registers[ts.source as int] {
            ProgramCounter::Skip
        } else {
            ProgramCounter::Next
        },
        Instruction::SkipIfKeyPressed(x) => if pre.keypad[pre.registers[x as int] as int] {
            ProgramCounter::Skip
        } else {
            ProgramCounter::Next
        },
        Instruction::SkipIfKeyNotPressed(x) => if !pre.keypad[pre.registers[x as int] as int] {
            ProgramCounter::Skip
        } else {
            ProgramCounter::Next
        },
        _ => ProgramCounter::Next,
    }
}

/// The program counter after applying an instruction's decision.
pub open spec fn next_pc(pc: u16, effect: ProgramCounter) -> u16 {
    match effect {
        ProgramCounter::Next => (pc + 2) as u16,
        ProgramCounter::Skip => (pc + 4) as u16,
        ProgramCounter::Jump(addr) => addr,
    }
}

/// One timer decrement: down by one, floor at zero.
pub open spec fn tick_timer(t: u8) -> u8 {
    if t > 0 {
        (t - 1) as u8
    } else {
        0
    }
}

/// The lowest-numbered pressed key from position `i` on, or 16 when
/// none is pressed.
pub open spec fn first_pressed(keys: Seq<bool>, i: int) -> int
    decreases 16 - i,
{
    if i < 0 || i >= 16 {
        16
    } else if keys[i] {
        i
    } else {
        first_pressed(keys, i + 1)
    }
}

/// Whether some key is pressed.
pub open spec fn any_key_pressed(keys: Seq<bool>) -> bool {
    exists|k: int| 0 <= k < 16 && keys[k]
}

/// The fault, if any, that the next cycle of a running machine
/// surfaces: a program counter too high to fetch from, or the fetched
/// instruction's own fault condition.  A machine waiting for a key
/// never faults.
pub open spec fn cycle_fault(pre: Core) -> Option<Fault> {
    if pre.waiting_for_key is Some {
        None
    } else if pre.program_counter > 4094 {
        Some(
            Fault {
                kind: FaultKind::MemoryOutOfBounds,
                program_counter: pre.program_counter,
                op_code: 0,
                stack_pointer: pre.stack_pointer as usize,
            },
        )
    } else {
        match step_fault(pre, spec_decode(fetch(pre))) {
            Some(kind) => Some(
                Fault {
                    kind,
                    program_counter: pre.program_counter,
                    op_code: fetch(pre),
                    stack_pointer: pre.stack_pointer as usize,
                },
            ),
            None => None,
        }
    }
}

/// The state after one fault-free cycle, given the byte `rnd` drawn
/// from the randomness source.  A waiting machine polls the keypad and
/// does nothing else; a running machine clears the redraw flag,
/// fetches, decodes, applies the instruction, moves the program
/// counter and ticks both timers.
pub open spec fn cycle_post(pre: Core, rnd: u8) -> Core {
    let pre0 = Core { should_draw: false, ..pre };
    match pre.waiting_for_key {
        Some(reg) => if any_key_pressed(pre.keypad) {
            let k = first_pressed(pre.keypad, 0);
            Core {
                registers: pre.registers.update(reg as int, k as u8),
                waiting_for_key: None,
                ..pre0
            }
        } else {
            pre0
        },
        None => {
            let inst = spec_decode(fetch(pre));
            let mid = step_state(pre0, inst, rnd);
            Core {
                program_counter: next_pc(pre.program_counter, step_pc(pre0, inst)),
                delay_timer: tick_timer(mid.delay_timer),
                sound_timer: tick_timer(mid.sound_timer),
                ..mid
            }
        },
    }
}

/// No instruction moves the program counter field itself; jumps and
/// skips act through the returned decision instead.
pub proof fn lemma_step_state_keeps_pc(pre: Core, inst: Instruction, rnd: u8)
    ensures
        step_state(pre, inst, rnd).program_counter == pre.program_counter,
{
}

/// An instruction's fault condition reads nothing but registers,
/// index and stack depth, so the redraw flag does not matter to it.
pub proof fn lemma_step_fault_ignores_flag(pre: Core, inst: Instruction, flag: bool)
    ensures
        step_fault(Core { should_draw: flag, ..pre }, inst) == step_fault(pre, inst),
{
}

/// When some key is pressed, `first_pressed` finds a pressed key and
/// nothing below it is pressed.
pub proof fn lemma_first_pressed_finds(keys: Seq<bool>)
    requires
        keys.len() == 16,
        any_key_pressed(keys),
    ensures
        0 <= first_pressed(keys, 0) < 16,
        keys[first_pressed(keys, 0)],
        forall|j: int| 0 <= j < first_pressed(keys, 0) ==> !keys[j],
{
    let k = choose|k: int| 0 <= k < 16 && keys[k];
    lemma_first_pressed_finds_from(keys, 0, k);
}

proof fn lemma_first_pressed_finds_from(keys: Seq<bool>, i: int, k: int)
    requires
        keys.len() == 16,
        0 <= i <= k < 16,
        keys[k],
    ensures
        i <= first_pressed(keys, i) <= k,
        keys[first_pressed(keys, i)],
        forall|j: int| i <= j < first_pressed(keys, i) ==> !keys[j],
    decreases k - i,
{
    if !keys[i] && i < k {
        lemma_first_pressed_finds_from(keys, i + 1, k);
    }
}

/// The lowest pressed key really is pressed, no key below it is, and
/// it is the value that `first_pressed` finds.
pub proof fn lemma_first_pressed(keys: Seq<bool>, k: int)
    requires
        keys.len() == 16,
        0 <= k < 16,
        keys[k],
        forall|j: int| 0 <= j < k ==> !keys[j],
    ensures
        first_pressed(keys, 0) == k,
{
    lemma_first_pressed_from(keys, 0, k);
}

proof fn lemma_first_pressed_from(keys: Seq<bool>, i: int, k: int)
    requires
        keys.len() == 16,
        0 <= i <= k < 16,
        keys[k],
        forall|j: int| i <= j < k ==> !keys[j],
    ensures
        first_pressed(keys, i) == k,
    decreases k - i,
{
    if i < k {
        lemma_first_pressed_from(keys, i + 1, k);
    }
}

} // verus!
