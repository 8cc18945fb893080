//! Laws of the machine that span several operations, stated over the
//! abstract model and proved once and for all.  The laws about the
//! XOR-blit itself live beside the framebuffer in `display`.

use vstd::prelude::*;

use crate::instructions::Instruction;
use crate::instructions::RegisterValuePair;
use crate::instructions::spec_decode;
use crate::state::Core;
use crate::state::any_key_pressed;
use crate::state::cycle_post;
use crate::state::fetch;
use crate::state::first_pressed;
use crate::state::lemma_first_pressed_finds;
use crate::state::step_state;

verus! {

/// Law: for every register and value, writing the value with "set
/// register immediate" and then reading the register yields that
/// value.
pub proof fn lemma_set_register_then_read(pre: Core, rv: RegisterValuePair, rnd: u8)
    requires
        pre.wf(),
        rv.register < 16,
    ensures
        step_state(pre, Instruction::AssignValueToRegister(rv), rnd).registers[
            rv.register as int
        ] == rv.value,
{
}

/// Law: a Call followed by a Return leaves the program counter at the
/// instruction after the Call and restores the stack pointer to its
/// prior depth.
pub proof fn lemma_call_then_return(pre: Core, addr: u16, rnd1: u8, rnd2: u8)
    requires
        pre.wf(),
        pre.waiting_for_key is None,
        pre.program_counter <= 4094,
        spec_decode(fetch(pre)) == Instruction::Call(addr),
        pre.stack_pointer < 16,
        addr <= 4094,
        spec_decode(fetch(cycle_post(pre, rnd1))) == Instruction::Return,
    ensures
        cycle_post(cycle_post(pre, rnd1), rnd2).program_counter == pre.program_counter + 2,
        cycle_post(cycle_post(pre, rnd1), rnd2).stack_pointer == pre.stack_pointer,
{
}

/// Law: a register dump of limit `k` followed by a register load of
/// the same limit from the same index restores every register, and
/// the index register advances by `k + 1` in both directions.
pub proof fn lemma_dump_then_load(pre: Core, limit: u8, rnd1: u8, rnd2: u8)
    requires
        pre.wf(),
        limit < 16,
        pre.index + limit < 4096,
    ensures
        ({
            let dumped = step_state(pre, Instruction::DumpRegisters(limit), rnd1);
            let rewound = Core { index: pre.index, ..dumped };
            let loaded = step_state(rewound, Instruction::LoadRegisters(limit), rnd2);
            &&& dumped.index == pre.index + limit + 1
            &&& loaded.index == pre.index + limit + 1
            &&& loaded.registers == pre.registers
        }),
{
    let dumped = step_state(pre, Instruction::DumpRegisters(limit), rnd1);
    let rewound = Core { index: pre.index, ..dumped };
    let loaded = step_state(rewound, Instruction::LoadRegisters(limit), rnd2);
    assert(loaded.registers =~= pre.registers);
}

/// Law: a cycle taken while waiting for a key with no key pressed
/// changes nothing but the redraw flag; the machine keeps waiting and
/// the target register keeps its value.
pub proof fn lemma_wait_with_no_key(pre: Core, rnd: u8)
    requires
        pre.wf(),
        pre.waiting_for_key is Some,
        !any_key_pressed(pre.keypad),
    ensures
        cycle_post(pre, rnd) == (Core { should_draw: false, ..pre }),
{
}

/// Law: a cycle taken while waiting for a key with some key pressed
/// stores the lowest pressed key in the waited-on register and leaves
/// the waiting state, so the next cycle executes normally.
pub proof fn lemma_wait_with_key(pre: Core, reg: u8, rnd: u8)
    requires
        pre.wf(),
        pre.waiting_for_key == Some(reg),
        any_key_pressed(pre.keypad),
    ensures
        ({
            let k = first_pressed(pre.keypad, 0);
            &&& 0 <= k < 16
            &&& pre.keypad[k]
            &&& forall|j: int| 0 <= j < k ==> !pre.keypad[j]
            &&& cycle_post(pre, rnd).registers == pre.registers.update(reg as int, k as u8)
            &&& cycle_post(pre, rnd).waiting_for_key is None
        }),
{
    lemma_first_pressed_finds(pre.keypad);
}

} // verus!
