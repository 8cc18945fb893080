//! The execution engine: owns all machine state and advances it one
//! instruction per cycle.  Every public operation is specified against
//! the abstract model in `state`.

use vstd::prelude::*;

use crate::audio::AudioDriver;
use crate::display::Display;
use crate::fontset::font_bytes;
use crate::input::Input;
use crate::instructions::Instruction;
use crate::instructions::decode;
use crate::instructions::lemma_nibble_fields;
use crate::instructions::spec_decode;
use crate::state::Core;
use crate::state::Fault;
use crate::state::FaultKind;
use crate::state::ProgramCounter;
use crate::state::any_key_pressed;
use crate::state::cycle_fault;
use crate::state::cycle_post;
use crate::state::dumped_memory;
use crate::state::fetch;
use crate::state::first_pressed;
use crate::state::initial_core;
use crate::state::initial_memory;
use crate::state::lemma_first_pressed;
use crate::state::lemma_step_fault_ignores_flag;
use crate::state::lemma_step_state_keeps_pc;
use crate::state::loaded_memory;
use crate::state::loaded_registers;
use crate::state::reset_memory;
use crate::state::step_fault;
use crate::state::step_pc;
use crate::state::step_state;
use crate::state::wrap_add8;
use crate::state::wrap_add16;
use crate::state::wrap_sub8;
use crate::state::zero_registers;
use crate::state::zero_stack;

verus! {

/// The memory size in bytes.
pub const MEMORY_SIZE: usize = 4096;

/// The width of one instruction in bytes.
pub const OP_SIZE: u16 = 2;

/// The error surfaced when a cartridge does not fit in the 3584 bytes
/// of program memory; the machine state is left untouched.
#[derive(Clone, Copy, Debug, PartialEq, Eq, Structural)]
pub struct LoadError {
    pub length: usize,
}

/// Draws a byte from the process-wide randomness source.
/// Relies on rand's `random`, which draws from the thread-local
/// generator; nothing can be promised about the value.
pub assume_specification<T>[ rand::random::<T> ]() -> (r: T)
    where
        rand::distributions::Standard: rand::distributions::Distribution<T>,
;

fn get_random() -> u8 {
    rand::random()
}

/// Relies on byteorder's `BigEndian::read_u16`: a big-endian 16-bit
/// integer assembled from the first two bytes of the buffer.
#[verifier::external_body]
fn read_u16_be(hi: u8, lo: u8) -> (r: u16)
    ensures
        r == hi as u16 * 256 + lo as u16,
{
    <byteorder::BigEndian as byteorder::ByteOrder>::read_u16(&[hi, lo])
}

/// A vector of `n` zero bytes.
fn zero_bytes(n: usize) -> (r: Vec<u8>)
    ensures
        r@ == Seq::new(n as nat, |i: int| 0u8),
{
    let mut r: Vec<u8> = Vec::new();
    let mut i: usize = 0;
    while i < n
        invariant
            i <= n,
            r@.len() == i,
            forall|j: int| 0 <= j < i ==> r@[j] == 0u8,
        decreases n - i,
    {
        r.push(0);
        i = i + 1;
    }
    proof {
        assert(r@ =~= Seq::new(n as nat, |i: int| 0u8));
    }
    r
}

/// A vector of `n` zero words.
fn zero_words(n: usize) -> (r: Vec<u16>)
    ensures
        r@ == Seq::new(n as nat, |i: int| 0u16),
{
    let mut r: Vec<u16> = Vec::new();
    let mut i: usize = 0;
    while i < n
        invariant
            i <= n,
            r@.len() == i,
            forall|j: int| 0 <= j < i ==> r@[j] == 0u16,
        decreases n - i,
    {
        r.push(0);
        i = i + 1;
    }
    proof {
        assert(r@ =~= Seq::new(n as nat, |i: int| 0u16));
    }
    r
}

/// Copies `data` into `memory` starting at `start`.
fn write_block(memory: &mut Vec<u8>, start: usize, data: &Vec<u8>)
    requires
        start + data@.len() <= old(memory)@.len(),
    ensures
        final(memory)@ == Seq::new(
            old(memory)@.len(),
            |i: int|
                if start <= i < start + data@.len() {
                    data@[i - start]
                } else {
                    old(memory)@[i]
                },
        ),
{
    let ghost m0 = memory@;
    let n = data.len();
    let mlen = memory.len();
    let mut i: usize = 0;
    while i < n
        invariant
            i <= n,
            n == data@.len(),
            mlen == m0.len(),
            start + n <= mlen,
            memory@.len() == m0.len(),
            forall|j: int| start <= j < start + i ==> memory@[j] == data@[j - start],
            forall|j: int| 0 <= j < m0.len() && !(start <= j < start + i) ==> memory@[j] == m0[j],
        decreases n - i,
    {
        memory.set(start + i, data[i]);
        i = i + 1;
    }
    proof {
        assert(memory@ =~= Seq::new(
            m0.len(),
            |i: int|
                if start <= i < start + data@.len() {
                    data@[i - start]
                } else {
                    m0[i]
                },
        ));
    }
}

/// Clears `memory` from `start` to the end.
fn zero_from(memory: &mut Vec<u8>, start: usize)
    requires
        start <= old(memory)@.len(),
    ensures
        final(memory)@ == Seq::new(
            old(memory)@.len(),
            |i: int| if i < start { old(memory)@[i] } else { 0u8 },
        ),
{
    let ghost m0 = memory@;
    let mut i: usize = start;
    while i < memory.len()
        invariant
            start <= i <= m0.len(),
            memory@.len() == m0.len(),
            forall|j: int| start <= j < i ==> memory@[j] == 0u8,
            forall|j: int| 0 <= j < m0.len() && !(start <= j < i) ==> memory@[j] == m0[j],
        decreases m0.len() - i,
    {
        memory.set(i, 0);
        i = i + 1;
    }
    proof {
        assert(memory@ =~= Seq::new(m0.len(), |i: int| if i < start { m0[i] } else { 0u8 }));
    }
}

/// Copies `len` bytes of `m` starting at `start` into a fresh vector.
fn copy_range(m: &Vec<u8>, start: usize, len: usize) -> (r: Vec<u8>)
    requires
        start + len <= m@.len(),
    ensures
        r@ == m@.subrange(start as int, start as int + len as int),
{
    let mlen = m.len();
    let mut r: Vec<u8> = Vec::new();
    let mut i: usize = 0;
    while i < len
        invariant
            i <= len,
            mlen == m@.len(),
            start + len <= mlen,
            r@.len() == i,
            forall|j: int| 0 <= j < i ==> r@[j] == m@[start + j],
        decreases len - i,
    {
        r.push(m[start + i]);
        i = i + 1;
    }
    proof {
        assert(r@ =~= m@.subrange(start as int, start as int + len as int));
    }
    r
}

/// Writes registers 0 through `limit` into `memory` at `start` onward.
fn dump_block(memory: &mut Vec<u8>, regs: &Vec<u8>, start: usize, limit: u8)
    requires
        old(memory)@.len() == 4096,
        regs@.len() == 16,
        limit < 16,
        start + limit < 4096,
    ensures
        final(memory)@ == dumped_memory(old(memory)@, regs@, start as int, limit as int),
{
    let ghost m0 = memory@;
    let mut i: usize = 0;
    while i <= limit as usize
        invariant
            i <= limit as usize + 1,
            limit < 16,
            start + limit < 4096,
            memory@.len() == 4096,
            regs@.len() == 16,
            forall|j: int| start <= j < start + i ==> memory@[j] == regs@[j - start],
            forall|j: int| 0 <= j < 4096 && !(start <= j < start + i) ==> memory@[j] == m0[j],
        decreases limit as int + 1 - i,
    {
        memory.set(start + i, regs[i]);
        i = i + 1;
    }
    proof {
        assert(memory@ =~= dumped_memory(m0, regs@, start as int, limit as int));
    }
}

/// Reads registers 0 through `limit` back from `memory` at `start`
/// onward.
fn load_block(regs: &mut Vec<u8>, memory: &Vec<u8>, start: usize, limit: u8)
    requires
        old(regs)@.len() == 16,
        memory@.len() == 4096,
        limit < 16,
        start + limit < 4096,
    ensures
        final(regs)@ == loaded_registers(old(regs)@, memory@, start as int, limit as int),
{
    let ghost r0 = regs@;
    let mut i: usize = 0;
    while i <= limit as usize
        invariant
            i <= limit as usize + 1,
            limit < 16,
            start + limit < 4096,
            memory@.len() == 4096,
            regs@.len() == 16,
            forall|j: int| 0 <= j < i ==> regs@[j] == memory@[start + j],
            forall|j: int| i <= j < 16 ==> regs@[j] == r0[j],
        decreases limit as int + 1 - i,
    {
        regs.set(i, memory[start + i]);
        i = i + 1;
    }
    proof {
        assert(regs@ =~= loaded_registers(r0, memory@, start as int, limit as int));
    }
}

/// The lowest-numbered pressed key, if any key is down.
fn first_pressed_key(input: &Input) -> (r: Option<u8>)
    requires
        input.wf(),
    ensures
        match r {
            Some(k) => {
                &&& k < 16
                &&& input.keypad@[k as int]
                &&& k as int == first_pressed(input.keypad@, 0)
                &&& any_key_pressed(input.keypad@)
            },
            None => !any_key_pressed(input.keypad@),
        },
{
    let mut k: u8 = 0;
    while k < 16
        invariant
            k <= 16,
            input.wf(),
            forall|j: int| 0 <= j < k ==> !input.keypad@[j],
        decreases 16 - k,
    {
        if input.is_pressed(k) {
            proof {
                lemma_first_pressed(input.keypad@, k as int);
            }
            return Some(k);
        }
        k = k + 1;
    }
    None
}

/// Skip the next instruction when the condition holds, otherwise fall
/// through to it.
pub fn skip_if(condition: bool) -> (r: ProgramCounter)
    ensures
        r == if condition {
            ProgramCounter::Skip
        } else {
            ProgramCounter::Next
        },
{
    if condition {
        ProgramCounter::Skip
    } else {
        ProgramCounter::Next
    }
}

/// The machine: memory, registers, index register, program counter,
/// timers, call stack, framebuffer, input latch, the pending
/// wait-for-key register, and the injected audio capability.
pub struct Chip8<T: AudioDriver> {
    pub display: Display,
    pub input: Input,
    pub memory: Vec<u8>,
    pub registers: Vec<u8>,
    pub index: u16,
    pub program_counter: u16,
    pub delay_timer: u8,
    pub sound_timer: u8,
    pub stack: Vec<u16>,
    pub stack_pointer: usize,
    pub waiting_for_key: Option<u8>,
    pub audio_driver: T,
    pub should_draw: bool,
}

impl<T: AudioDriver> View for Chip8<T> {
    type V = Core;

    open spec fn view(&self) -> Core {
        Core {
            memory: self.memory@,
            registers: self.registers@,
            index: self.index,
            program_counter: self.program_counter,
            delay_timer: self.delay_timer,
            sound_timer: self.sound_timer,
            stack: self.stack@,
            stack_pointer: self.stack_pointer as int,
            waiting_for_key: self.waiting_for_key,
            pixels: self.display.pixels@,
            keypad: self.input.keypad@,
            should_draw: self.should_draw,
        }
    }
}

impl<T: AudioDriver> Chip8<T> {
    /// Structurally sound machine state.
    pub open spec fn wf(&self) -> bool {
        self@.wf()
    }

    /// A fresh machine: zeroed memory with the font preloaded,
    /// registers and timers zero, empty stack, program counter at
    /// 0x200, blank framebuffer, no key pressed, not waiting.
    pub fn new(audio_driver: T) -> (r: Chip8<T>)
        ensures
            r.wf(),
            r@ == initial_core(),
    {
        let font = font_bytes();
        let mut memory = zero_bytes(MEMORY_SIZE);
        write_block(&mut memory, 0, &font);
        proof {
            assert(memory@ =~= initial_memory());
        }
        let r = Chip8 {
            memory,
            registers: zero_bytes(16),
            index: 0,
            program_counter: 0x200,
            display: Display::new(),
            delay_timer: 0,
            sound_timer: 0,
            stack: zero_words(16),
            stack_pointer: 0,
            input: Input::new(),
            waiting_for_key: None,
            should_draw: false,
            audio_driver,
        };
        proof {
            assert(r@ =~= initial_core());
        }
        r
    }

    /// Loads a cartridge: the raw bytes are copied verbatim to offset
    /// 0x200.  A cartridge larger than the 3584 bytes of program
    /// memory is rejected whole, leaving the machine untouched.
    pub fn load(&mut self, buffer: Vec<u8>) -> (r: Result<(), LoadError>)
        requires
            old(self).wf(),
        ensures
            final(self).wf(),
            buffer@.len() <= 3584 ==> r is Ok && final(self)@ == (Core {
                memory: loaded_memory(old(self)@.memory, buffer@),
                ..old(self)@
            }),
            buffer@.len() > 3584 ==> r == Err::<(), LoadError>(
                LoadError { length: buffer@.len() as usize },
            ) && final(self)@ == old(self)@,
    {
        if buffer.len() > 3584 {
            return Err(LoadError { length: buffer.len() });
        }
        write_block(&mut self.memory, 512, &buffer);
        proof {
            assert(self.memory@ =~= loaded_memory(old(self)@.memory, buffer@));
        }
        Ok(())
    }

    /// Returns the machine to its power-on state, except that the
    /// memory below 0x200 (the font area), the keypad and the redraw
    /// flag keep their current contents.  Everything from 0x200
    /// upward is zeroed, so a previously loaded cartridge is gone.
    pub fn reset(&mut self)
        requires
            old(self).wf(),
        ensures
            final(self).wf(),
            final(self)@ == (Core {
                memory: reset_memory(old(self)@.memory),
                registers: zero_registers(),
                index: 0,
                program_counter: 0x200,
                delay_timer: 0,
                sound_timer: 0,
                stack: zero_stack(),
                stack_pointer: 0,
                waiting_for_key: None,
                pixels: crate::display::all_off(),
                ..old(self)@
            }),
    {
        zero_from(&mut self.memory, 512);
        proof {
            assert(self.memory@ =~= reset_memory(old(self)@.memory));
        }
        self.registers = zero_bytes(16);
        self.index = 0;
        self.program_counter = 0x200;
        self.display = Display::new();
        self.delay_timer = 0;
        self.sound_timer = 0;
        self.stack = zero_words(16);
        self.stack_pointer = 0;
        self.waiting_for_key = None;
        proof {
            assert(self.registers@ =~= zero_registers());
            assert(self.stack@ =~= zero_stack());
        }
    }

    /// Whether the last cycle drew to the framebuffer.
    pub fn should_draw(&self) -> (r: bool)
        ensures
            r == self@.should_draw,
    {
        self.should_draw
    }

    /// Writes a general-purpose register.
    pub fn set_register(&mut self, register: u8, value: u8)
        requires
            old(self).wf(),
            register < 16,
        ensures
            final(self).wf(),
            final(self)@ == (Core {
                registers: old(self)@.registers.update(register as int, value),
                ..old(self)@
            }),
    {
        self.registers.set(register as usize, value);
    }

    /// Writes one byte of memory.
    pub fn set_memory(&mut self, index: u16, value: u8)
        requires
            old(self).wf(),
            index < 4096,
        ensures
            final(self).wf(),
            final(self)@ == (Core {
                memory: old(self)@.memory.update(index as int, value),
                ..old(self)@
            }),
    {
        self.memory.set(index as usize, value);
    }

    /// Writes the flag register (register 15).
    pub fn set_vf(&mut self, value: u8)
        requires
            old(self).wf(),
        ensures
            final(self).wf(),
            final(self)@ == (Core {
                registers: old(self)@.registers.update(15, value),
                ..old(self)@
            }),
    {
        self.set_register(0xF, value);
    }

    /// Reads a general-purpose register.
    pub fn get_register(&self, register: u8) -> (r: u8)
        requires
            self.wf(),
            register < 16,
        ensures
            r == self@.registers[register as int],
    {
        self.registers[register as usize]
    }

    /// Reads one byte of memory.
    pub fn get_memory(&self, index: u16) -> (r: u8)
        requires
            self.wf(),
            index < 4096,
        ensures
            r == self@.memory[index as int],
    {
        self.memory[index as usize]
    }

    /// Pushes the address of the following instruction onto the call
    /// stack.
    pub fn push_stack(&mut self)
        requires
            old(self).wf(),
            old(self)@.stack_pointer < 16,
            old(self)@.program_counter + 2 <= u16::MAX,
        ensures
            final(self).wf(),
            final(self)@ == (Core {
                stack: old(self)@.stack.update(
                    old(self)@.stack_pointer,
                    (old(self)@.program_counter + 2) as u16,
                ),
                stack_pointer: old(self)@.stack_pointer + 1,
                ..old(self)@
            }),
    {
        self.stack.set(self.stack_pointer, self.program_counter + 2);
        self.stack_pointer = self.stack_pointer + 1;
    }

    /// Pops the most recent return address off the call stack.
    pub fn pop_stack(&mut self) -> (r: u16)
        requires
            old(self).wf(),
            old(self)@.stack_pointer > 0,
        ensures
            final(self).wf(),
            r == old(self)@.stack[old(self)@.stack_pointer - 1],
            final(self)@ == (Core { stack_pointer: old(self)@.stack_pointer - 1, ..old(self)@ }),
    {
        self.stack_pointer = self.stack_pointer - 1;
        self.stack[self.stack_pointer]
    }

    /// Decodes and applies one instruction.  On success the machine
    /// state is `step_state` of the old one and the returned value is
    /// the instruction's program-counter decision; a stack or range
    /// violation is refused with the machine untouched.
    #[verifier::rlimit(100)]
    #[verifier::spinoff_prover]
    fn execute_op(&mut self, op_code: u16) -> (r: Result<ProgramCounter, FaultKind>)
        requires
            old(self).wf(),
            old(self)@.program_counter <= 4094,
        ensures
            final(self).wf(),
            match r {
                Ok(pc) => {
                    &&& step_fault(old(self)@, spec_decode(op_code)) is None
                    &&& pc == step_pc(old(self)@, spec_decode(op_code))
                    &&& exists|rnd: u8|
                        final(self)@ == step_state(old(self)@, spec_decode(op_code), rnd)
                },
                Err(kind) => {
                    &&& step_fault(old(self)@, spec_decode(op_code)) == Some(kind)
                    &&& final(self)@ == old(self)@
                },
            },
    {
        proof {
            lemma_nibble_fields(op_code);
        }
        let ghost pre = self@;
        let ghost inst = spec_decode(op_code);
        match decode(op_code) {
            Instruction::CallMachineCode(_) => {
                proof {
                    assert(self@ == step_state(pre, inst, 0));
                }
                Ok(ProgramCounter::Next)
            },
            Instruction::ClearDisplay => {
                self.display.clear();
                self.should_draw = true;
                proof {
                    assert(self@ == step_state(pre, inst, 0));
                }
                Ok(ProgramCounter::Next)
            },
            Instruction::Return => {
                if self.stack_pointer == 0 {
                    Err(FaultKind::StackUnderflow)
                } else {
                    let addr = self.pop_stack();
                    proof {
                        assert(self@ == step_state(pre, inst, 0));
                    }
                    Ok(ProgramCounter::Jump(addr))
                }
            },
            Instruction::GoTo(addr) => {
                proof {
                    assert(self@ == step_state(pre, inst, 0));
                }
                Ok(ProgramCounter::Jump(addr))
            },
            Instruction::Call(addr) => {
                if self.stack_pointer >= 16 {
                    Err(FaultKind::StackOverflow)
                } else {
                    self.push_stack();
                    proof {
                        assert(self@ == step_state(pre, inst, 0));
                    }
                    Ok(ProgramCounter::Jump(addr))
                }
            },
            Instruction::SkipIfEqual(rv) => {
                proof {
                    assert(self@ == step_state(pre, inst, 0));
                }
                Ok(skip_if(self.get_register(rv.register) == rv.value))
            },
            Instruction::SkipIfDifferent(rv) => {
                proof {
                    assert(self@ == step_state(pre, inst, 0));
                }
                Ok(skip_if(self.get_register(rv.register) != rv.value))
            },
            Instruction::SkipIfRegisterEqual(ts) => {
                proof {
                    assert(self@ == step_state(pre, inst, 0));
                }
                Ok(skip_if(self.get_register(ts.target) == self.get_register(ts.source)))
            },
            Instruction::AssignValueToRegister(rv) => {
                self.set_register(rv.register, rv.value);
                proof {
                    assert(self@ == step_state(pre, inst, 0));
                }
                Ok(ProgramCounter::Next)
            },
            Instruction::AddValueToRegister(rv) => {
                let vx = self.get_register(rv.register);
                let sum = ((vx as u16 + rv.value as u16) % 256) as u8;
                self.set_register(rv.register, sum);
                proof {
                    assert(sum == wrap_add8(pre.registers[rv.register as int], rv.value));
                    assert(self@ == step_state(pre, inst, 0));
                }
                Ok(ProgramCounter::Next)
            },
            Instruction::AssignVYToVX(ts) => {
                let vy = self.get_register(ts.source);
                self.set_register(ts.target, vy);
                proof {
                    assert(self@ == step_state(pre, inst, 0));
                }
                Ok(ProgramCounter::Next)
            },
            Instruction::SetXOrY(ts) => {
                let result = self.get_register(ts.target) | self.get_register(ts.source);
                self.set_register(ts.target, result);
                proof {
                    assert(self@ == step_state(pre, inst, 0));
                }
                Ok(ProgramCounter::Next)
            },
            Instruction::SetXAndY(ts) => {
                let result = self.get_register(ts.target) & self.get_register(ts.source);
                self.set_register(ts.target, result);
                proof {
                    assert(self@ == step_state(pre, inst, 0));
                }
                Ok(ProgramCounter::Next)
            },
            Instruction::SetXXorY(ts) => {
                let result = self.get_register(ts.target) ^ self.get_register(ts.source);
                self.set_register(ts.target, result);
                proof {
                    assert(self@ == step_state(pre, inst, 0));
                }
                Ok(ProgramCounter::Next)
            },
            Instruction::AddYToX(ts) => {
                let vx = self.get_register(ts.target);
                let vy = self.get_register(ts.source);
                let wide = vx as u16 + vy as u16;
                let flag: u8 = if wide > 255 {
                    1
                } else {
                    0
                };
                let result = (wide % 256) as u8;
                self.set_vf(flag);
                self.set_register(ts.target, result);
                proof {
                    assert(result == wrap_add8(vx, vy));
                    assert(self@ == step_state(pre, inst, 0));
                }
                Ok(ProgramCounter::Next)
            },
            Instruction::SubYFromX(ts) => {
                let vx = self.get_register(ts.target);
                let vy = self.get_register(ts.source);
                let flag: u8 = if vx >= vy {
                    1
                } else {
                    0
                };
                let result = ((256 + vx as u16 - vy as u16) % 256) as u8;
                self.set_vf(flag);
                self.set_register(ts.target, result);
                proof {
                    assert(result == wrap_sub8(vx, vy));
                    assert(self@ == step_state(pre, inst, 0));
                }
                Ok(ProgramCounter::Next)
            },
            Instruction::ShiftRight(register) => {
                let reg_value = self.get_register(register);
                self.set_vf(reg_value & 1);
                self.set_register(register, reg_value >> 1);
                proof {
                    assert(self@ == step_state(pre, inst, 0));
                }
                Ok(ProgramCounter::Next)
            },
            Instruction::SetXAsYMinusX(ts) => {
                let vx = self.get_register(ts.target);
                let vy = self.get_register(ts.source);
                let flag: u8 = if vy >= vx {
                    1
                } else {
                    0
                };
                let result = ((256 + vy as u16 - vx as u16) % 256) as u8;
                self.set_vf(flag);
                self.set_register(ts.target, result);
                proof {
                    assert(result == wrap_sub8(vy, vx));
                    assert(self@ == step_state(pre, inst, 0));
                }
                Ok(ProgramCounter::Next)
            },
            Instruction::ShiftLeft(register) => {
                let reg_value = self.get_register(register);
                self.set_vf(reg_value >> 7);
                self.set_register(register, reg_value << 1);
                proof {
                    assert(self@ == step_state(pre, inst, 0));
                }
                Ok(ProgramCounter::Next)
            },
            Instruction::SkipIfRegisterDifferent(ts) => {
                proof {
                    assert(self@ == step_state(pre, inst, 0));
                }
                Ok(skip_if(self.get_register(ts.target) != self.get_register(ts.source)))
            },
            Instruction::SetIAs(value) => {
                self.index = value;
                proof {
                    assert(self@ == step_state(pre, inst, 0));
                }
                Ok(ProgramCounter::Next)
            },
            Instruction::GoToNPlusV0(addr) => {
                proof {
                    assert(self@ == step_state(pre, inst, 0));
                }
                Ok(ProgramCounter::Jump(addr + self.get_register(0) as u16))
            },
            Instruction::Random(rv) => {
                let rnd = get_random();
                self.set_register(rv.register, rnd & rv.value);
                proof {
                    assert(self@ == step_state(pre, inst, rnd));
                }
                Ok(ProgramCounter::Next)
            },
            Instruction::Draw { x, y, height } => {
                if self.index as usize + height as usize > 4096 {
                    Err(FaultKind::MemoryOutOfBounds)
                } else {
                    let start = self.index as usize;
                    let vx = self.get_register(x);
                    let vy = self.get_register(y);
                    let sprite = copy_range(&self.memory, start, height as usize);
                    let flag = self.display.draw(vx as usize, vy as usize, sprite.as_slice());
                    self.set_vf(flag);
                    self.should_draw = true;
                    proof {
                        assert(self@ == step_state(pre, inst, 0));
                    }
                    Ok(ProgramCounter::Next)
                }
            },
            Instruction::SkipIfKeyPressed(register) => {
                let reg_value = self.get_register(register);
                if reg_value >= 16 {
                    Err(FaultKind::KeyOutOfRange)
                } else {
                    proof {
                        assert(self@ == step_state(pre, inst, 0));
                    }
                    Ok(skip_if(self.input.is_pressed(reg_value)))
                }
            },
            Instruction::SkipIfKeyNotPressed(register) => {
                let reg_value = self.get_register(register);
                if reg_value >= 16 {
                    Err(FaultKind::KeyOutOfRange)
                } else {
                    proof {
                        assert(self@ == step_state(pre, inst, 0));
                    }
                    Ok(skip_if(!self.input.is_pressed(reg_value)))
                }
            },
            Instruction::SetXAsDelay(register) => {
                let delay = self.delay_timer;
                self.set_register(register, delay);
                proof {
                    assert(self@ == step_state(pre, inst, 0));
                }
                Ok(ProgramCounter::Next)
            },
            Instruction::WaitForInputAndStoreIn(register) => {
                self.waiting_for_key = Some(register);
                proof {
                    assert(self@ == step_state(pre, inst, 0));
                }
                Ok(ProgramCounter::Next)
            },
            Instruction::SetDelayAsX(register) => {
                self.delay_timer = self.get_register(register);
                proof {
                    assert(self@ == step_state(pre, inst, 0));
                }
                Ok(ProgramCounter::Next)
            },
            Instruction::SetSoundAsX(register) => {
                self.sound_timer = self.get_register(register);
                proof {
                    assert(self@ == step_state(pre, inst, 0));
                }
                Ok(ProgramCounter::Next)
            },
            Instruction::AddXToI(register) => {
                let v = self.get_register(register) as u16;
                self.index = ((self.index as u32 + v as u32) % 0x10000) as u16;
                proof {
                    assert(self@.index == wrap_add16(pre.index, v));
                    assert(self@ == step_state(pre, inst, 0));
                }
                Ok(ProgramCounter::Next)
            },
            Instruction::SetIAsFontSprite(register) => {
                self.index = self.get_register(register) as u16 * 5;
                proof {
                    assert(self@ == step_state(pre, inst, 0));
                }
                Ok(ProgramCounter::Next)
            },
            Instruction::StoreBCD(register) => {
                if self.index >= 4094 {
                    Err(FaultKind::MemoryOutOfBounds)
                } else {
                    let value = self.get_register(register);
                    let base = self.index;
                    self.set_memory(base, value / 100);
                    self.set_memory(base + 1, (value % 100) / 10);
                    self.set_memory(base + 2, value % 10);
                    proof {
                        assert(self@ == step_state(pre, inst, 0));
                    }
                    Ok(ProgramCounter::Next)
                }
            },
            Instruction::DumpRegisters(limit) => {
                if self.index as usize + limit as usize >= 4096 {
                    Err(FaultKind::MemoryOutOfBounds)
                } else {
                    let start = self.index as usize;
                    dump_block(&mut self.memory, &self.registers, start, limit);
                    self.index = self.index + limit as u16 + 1;
                    proof {
                        assert(self@ == step_state(pre, inst, 0));
                    }
                    Ok(ProgramCounter::Next)
                }
            },
            Instruction::LoadRegisters(limit) => {
                if self.index as usize + limit as usize >= 4096 {
                    Err(FaultKind::MemoryOutOfBounds)
                } else {
                    let start = self.index as usize;
                    load_block(&mut self.registers, &self.memory, start, limit);
                    self.index = self.index + limit as u16 + 1;
                    proof {
                        assert(self@ == step_state(pre, inst, 0));
                    }
                    Ok(ProgramCounter::Next)
                }
            },
            Instruction::InvalidInstruction => {
                proof {
                    assert(self@ == step_state(pre, inst, 0));
                }
                Ok(ProgramCounter::Next)
            },
        }
    }

    /// Runs one cycle.  A machine waiting for a key polls the keypad:
    /// with no key down nothing changes; otherwise the lowest pressed
    /// key lands in the waited-on register and execution resumes.  A
    /// running machine clears the redraw flag, fetches and applies one
    /// instruction, moves the program counter and ticks both timers,
    /// sounding the audio capability as the sound timer runs out.  A
    /// stack or range violation stops the cycle and surfaces a
    /// diagnostic, leaving the state as it was.
    pub fn emulate_cycle(&mut self) -> (r: Result<(), Fault>)
        requires
            old(self).wf(),
        ensures
            final(self).wf(),
            match r {
                Ok(_) => {
                    &&& cycle_fault(old(self)@) is None
                    &&& exists|rnd: u8| final(self)@ == cycle_post(old(self)@, rnd)
                },
                Err(fault) => {
                    &&& Some(fault) == cycle_fault(old(self)@)
                    &&& final(self)@ == (Core { should_draw: false, ..old(self)@ })
                },
            },
    {
        let ghost pre = self@;
        if self.should_draw {
            self.should_draw = false;
        }
        proof {
            assert(self@ =~= (Core { should_draw: false, ..pre }));
        }
        let ghost pre0 = self@;
        match self.waiting_for_key {
            Some(register) => {
                match first_pressed_key(&self.input) {
                    Some(k) => {
                        self.waiting_for_key = None;
                        self.set_register(register, k);
                        proof {
                            assert(self@ =~= cycle_post(pre, 0));
                        }
                    },
                    None => {
                        proof {
                            assert(self@ =~= cycle_post(pre, 0));
                        }
                    },
                }
                Ok(())
            },
            None => {
                if self.program_counter > 4094 {
                    return Err(
                        Fault {
                            kind: FaultKind::MemoryOutOfBounds,
                            program_counter: self.program_counter,
                            op_code: 0,
                            stack_pointer: self.stack_pointer,
                        },
                    );
                }
                let hi = self.get_memory(self.program_counter);
                let lo = self.get_memory(self.program_counter + 1);
                let op_code = read_u16_be(hi, lo);
                proof {
                    assert(op_code == fetch(pre));
                }
                match self.execute_op(op_code) {
                    Err(kind) => {
                        proof {
                            lemma_step_fault_ignores_flag(pre, spec_decode(op_code), false);
                        }
                        Err(
                            Fault {
                                kind,
                                program_counter: self.program_counter,
                                op_code,
                                stack_pointer: self.stack_pointer,
                            },
                        )
                    },
                    Ok(pg_op) => {
                        let ghost mid = self@;
                        let ghost rnd = choose|rnd: u8|
                            mid == step_state(pre0, spec_decode(op_code), rnd);
                        proof {
                            lemma_step_state_keeps_pc(pre0, spec_decode(op_code), rnd);
                            lemma_step_fault_ignores_flag(pre, spec_decode(op_code), false);
                        }
                        self.program_counter = match pg_op {
                            ProgramCounter::Next => self.program_counter + OP_SIZE,
                            ProgramCounter::Skip => self.program_counter + 2 * OP_SIZE,
                            ProgramCounter::Jump(addr) => addr,
                        };
                        if self.delay_timer > 0 {
                            self.delay_timer = self.delay_timer - 1;
                        }
                        match self.sound_timer {
                            0 => {},
                            1 => {
                                self.audio_driver.play_sound();
                                self.sound_timer = self.sound_timer - 1;
                            },
                            _ => {
                                self.sound_timer = self.sound_timer - 1;
                            },
                        }
                        proof {
                            assert(self@ =~= cycle_post(pre, rnd));
                        }
                        Ok(())
                    },
                }
            },
        }
    }
}

} // verus!
