//! Instruction decoding: a 16-bit opcode is classified into one of 35
//! instruction variants (plus an "unrecognized" sentinel) by its four
//! hexadecimal nibbles.  Decoding is pure and total: every opcode maps
//! to exactly one variant.

use vstd::prelude::*;

verus! {

/// A register-register operand pair (the `x` and `y` nibbles of an opcode).
#[derive(Debug, PartialEq, Eq, Structural)]
pub struct TargetSourcePair {
    pub target: u8,
    pub source: u8,
}

/// A register-immediate operand pair (the `x` nibble and `kk` byte of an opcode).
#[derive(Debug, PartialEq, Eq, Structural)]
pub struct RegisterValuePair {
    pub register: u8,
    pub value: u8,
}

/// The instruction set: one variant per opcode pattern, plus a sentinel
/// for opcodes that match no pattern.
#[derive(Debug, PartialEq, Eq, Structural)]
pub enum Instruction {
    CallMachineCode(u16),
    ClearDisplay,
    Return,
    GoTo(u16),
    Call(u16),
    SkipIfEqual(RegisterValuePair),
    SkipIfDifferent(RegisterValuePair),
    SkipIfRegisterEqual(TargetSourcePair),
    AssignValueToRegister(RegisterValuePair),
    AddValueToRegister(RegisterValuePair),
    AssignVYToVX(TargetSourcePair),
    SetXOrY(TargetSourcePair),
    SetXAndY(TargetSourcePair),
    SetXXorY(TargetSourcePair),
    AddYToX(TargetSourcePair),
    SubYFromX(TargetSourcePair),
    ShiftRight(u8),
    SetXAsYMinusX(TargetSourcePair),
    ShiftLeft(u8),
    SkipIfRegisterDifferent(TargetSourcePair),
    SetIAs(u16),
    GoToNPlusV0(u16),
    Random(RegisterValuePair),
    Draw { x: u8, y: u8, height: u8 },
    SkipIfKeyPressed(u8),
    SkipIfKeyNotPressed(u8),
    SetXAsDelay(u8),
    WaitForInputAndStoreIn(u8),
    SetDelayAsX(u8),
    SetSoundAsX(u8),
    AddXToI(u8),
    SetIAsFontSprite(u8),
    StoreBCD(u8),
    DumpRegisters(u8),
    LoadRegisters(u8),
    InvalidInstruction,
}

/// Highest nibble of an opcode.
pub open spec fn nib0(op: u16) -> u8 {
    ((op >> 12) & 0xF) as u8
}

/// Second nibble of an opcode (the `x` register position).
pub open spec fn nib1(op: u16) -> u8 {
    ((op >> 8) & 0xF) as u8
}

/// Third nibble of an opcode (the `y` register position).
pub open spec fn nib2(op: u16) -> u8 {
    ((op >> 4) & 0xF) as u8
}

/// Lowest nibble of an opcode.
pub open spec fn nib3(op: u16) -> u8 {
    (op & 0xF) as u8
}

/// The 12-bit address field of an opcode (its three low nibbles).
pub open spec fn addr_of(op: u16) -> u16 {
    op & 0xFFF
}

/// The 8-bit immediate field of an opcode (its two low nibbles).
pub open spec fn byte_of(op: u16) -> u8 {
    (op & 0xFF) as u8
}

/// Nibble fields are bounded and reassemble into the address and
/// immediate fields of the opcode.
pub proof fn lemma_nibble_fields(op: u16)
    by (bit_vector)
    ensures
        nib0(op) < 16,
        nib1(op) < 16,
        nib2(op) < 16,
        nib3(op) < 16,
        nib1(op) as int * 256 + nib2(op) as int * 16 + nib3(op) as int == addr_of(op) as int,
        nib2(op) as int * 16 + nib3(op) as int == byte_of(op) as int,
{
}

/// What `decode` returns, written over the opcode's nibble fields.
/// The nibble patterns are checked in the same order as the decoder's
/// match arms; everything that falls through is the sentinel.
pub open spec fn spec_decode(op: u16) -> Instruction {
    let n0 = nib0(op);
    let n1 = nib1(op);
    let n2 = nib2(op);
    let n3 = nib3(op);
    let ts = TargetSourcePair { target: n1, source: n2 };
    let rv = RegisterValuePair { register: n1, value: byte_of(op) };
    if n0 == 0x0 && n1 == 0x0 && n2 == 0xE && n3 == 0x0 {
        Instruction::ClearDisplay
    } else if n0 == 0x0 && n1 == 0x0 && n2 == 0xE && n3 == 0xE {
        Instruction::Return
    } else if n0 == 0x0 {
        Instruction::CallMachineCode(addr_of(op))
    } else if n0 == 0x1 {
        Instruction::GoTo(addr_of(op))
    } else if n0 == 0x2 {
        Instruction::Call(addr_of(op))
    } else if n0 == 0x3 {
        Instruction::SkipIfEqual(rv)
    } else if n0 == 0x4 {
        Instruction::SkipIfDifferent(rv)
    } else if n0 == 0x5 && n3 == 0x0 {
        Instruction::SkipIfRegisterEqual(ts)
    } else if n0 == 0x6 {
        Instruction::AssignValueToRegister(rv)
    } else if n0 == 0x7 {
        Instruction::AddValueToRegister(rv)
    } else if n0 == 0x8 && n3 == 0x0 {
        Instruction::AssignVYToVX(ts)
    } else if n0 == 0x8 && n3 == 0x1 {
        Instruction::SetXOrY(ts)
    } else if n0 == 0x8 && n3 == 0x2 {
        Instruction::SetXAndY(ts)
    } else if n0 == 0x8 && n3 == 0x3 {
        Instruction::SetXXorY(ts)
    } else if n0 == 0x8 && n3 == 0x4 {
        Instruction::AddYToX(ts)
    } else if n0 == 0x8 && n3 == 0x5 {
        Instruction::SubYFromX(ts)
    } else if n0 == 0x8 && n3 == 0x6 {
        Instruction::ShiftRight(n1)
    } else if n0 == 0x8 && n3 == 0x7 {
        Instruction::SetXAsYMinusX(ts)
    } else if n0 == 0x8 && n3 == 0xE {
        Instruction::ShiftLeft(n1)
    } else if n0 == 0x9 && n3 == 0x0 {
        Instruction::SkipIfRegisterDifferent(ts)
    } else if n0 == 0xA {
        Instruction::SetIAs(addr_of(op))
    } else if n0 == 0xB {
        Instruction::GoToNPlusV0(addr_of(op))
    } else if n0 == 0xC {
        Instruction::Random(rv)
    } else if n0 == 0xD {
        Instruction::Draw { x: n1, y: n2, height: n3 }
    } else if n0 == 0xE && n2 == 0x9 && n3 == 0xE {
        Instruction::SkipIfKeyPressed(n1)
    } else if n0 == 0xE && n2 == 0xA && n3 == 0x1 {
        Instruction::SkipIfKeyNotPressed(n1)
    } else if n0 == 0xF && n2 == 0x0 && n3 == 0x7 {
        Instruction::SetXAsDelay(n1)
    } else if n0 == 0xF && n2 == 0x0 && n3 == 0xA {
        Instruction::WaitForInputAndStoreIn(n1)
    } else if n0 == 0xF && n2 == 0x1 && n3 == 0x5 {
        Instruction::SetDelayAsX(n1)
    } else if n0 == 0xF && n2 == 0x1 && n3 == 0x8 {
        Instruction::SetSoundAsX(n1)
    } else if n0 == 0xF && n2 == 0x1 && n3 == 0xE {
        Instruction::AddXToI(n1)
    } else if n0 == 0xF && n2 == 0x2 && n3 == 0x9 {
        Instruction::SetIAsFontSprite(n1)
    } else if n0 == 0xF && n2 == 0x3 && n3 == 0x3 {
        Instruction::StoreBCD(n1)
    } else if n0 == 0xF && n2 == 0x5 && n3 == 0x5 {
        Instruction::DumpRegisters(n1)
    } else if n0 == 0xF && n2 == 0x6 && n3 == 0x5 {
        Instruction::LoadRegisters(n1)
    } else {
        Instruction::InvalidInstruction
    }
}

/// Assembles a byte from two nibbles, high nibble first.
pub fn nibbles_to_byte(hi: u8, lo: u8) -> (r: u8)
    requires
        hi < 16,
        lo < 16,
    ensures
        r == hi * 16 + lo,
{
    proof {
        assert((hi << 4) | lo == hi * 16 + lo) by (bit_vector)
            requires
                hi < 16 && lo < 16,
        ;
    }
    (hi << 4) | lo
}

/// Assembles a 16-bit word from four nibbles, highest first.
pub fn nibbles_to_word(a: u8, b: u8, c: u8, d: u8) -> (r: u16)
    requires
        a < 16,
        b < 16,
        c < 16,
        d < 16,
    ensures
        r == a * 4096 + b * 256 + c * 16 + d,
{
    proof {
        assert(((a as u16) << 12) | ((b as u16) << 8) | ((c as u16) << 4) | (d as u16)
            == a * 4096 + b * 256 + c * 16 + d) by (bit_vector)
            requires
                a < 16 && b < 16 && c < 16 && d < 16,
        ;
    }
    ((a as u16) << 12) | ((b as u16) << 8) | ((c as u16) << 4) | (d as u16)
}

/// Assembles a 12-bit address from three nibbles, highest first.
pub fn nibbles_to_addr(a: u8, b: u8, c: u8) -> (r: u16)
    requires
        a < 16,
        b < 16,
        c < 16,
    ensures
        r == a * 256 + b * 16 + c,
{
    nibbles_to_word(0, a, b, c)
}

fn as_ts_pair(x: u8, y: u8) -> (r: TargetSourcePair)
    ensures
        r == (TargetSourcePair { target: x, source: y }),
{
    TargetSourcePair { target: x, source: y }
}

fn as_rv_pair(register: u8, c1: u8, c2: u8) -> (r: RegisterValuePair)
    requires
        c1 < 16,
        c2 < 16,
    ensures
        r.register == register,
        r.value == c1 * 16 + c2,
{
    RegisterValuePair { register, value: nibbles_to_byte(c1, c2) }
}

/// Splits an opcode into its four nibbles, most significant first.
pub fn as_nibble_array(op_code: u16) -> (r: [u8; 4])
    ensures
        r@ == seq![nib0(op_code), nib1(op_code), nib2(op_code), nib3(op_code)],
{
    let first_nibble = ((op_code >> 12) & 0xF) as u8;
    let second_nibble = ((op_code >> 8) & 0xF) as u8;
    let third_nibble = ((op_code >> 4) & 0xF) as u8;
    let fourth_nibble = (op_code & 0xF) as u8;
    let r = [first_nibble, second_nibble, third_nibble, fourth_nibble];
    proof {
        assert(r@ =~= seq![nib0(op_code), nib1(op_code), nib2(op_code), nib3(op_code)]);
    }
    r
}

/// Classifies an opcode.  Total: every 16-bit value maps to exactly one
/// variant, with unmapped nibble combinations falling through to the
/// sentinel.
pub fn decode(op_code: u16) -> (r: Instruction)
    ensures
        r == spec_decode(op_code),
{
    proof {
        lemma_nibble_fields(op_code);
    }
    let nibble_array = as_nibble_array(op_code);
    let n0 = nibble_array[0];
    let n1 = nibble_array[1];
    let n2 = nibble_array[2];
    let n3 = nibble_array[3];
    match (n0, n1, n2, n3) {
        (0x0, 0x0, 0xE, 0x0) => Instruction::ClearDisplay,
        (0x0, 0x0, 0xE, 0xE) => Instruction::Return,
        (0x0, c1, c2, c3) => Instruction::CallMachineCode(nibbles_to_addr(c1, c2, c3)),
        (0x1, c1, c2, c3) => Instruction::GoTo(nibbles_to_addr(c1, c2, c3)),
        (0x2, c1, c2, c3) => Instruction::Call(nibbles_to_addr(c1, c2, c3)),
        (0x3, register, c1, c2) => Instruction::SkipIfEqual(as_rv_pair(register, c1, c2)),
        (0x4, register, c1, c2) => Instruction::SkipIfDifferent(as_rv_pair(register, c1, c2)),
        (0x5, x, y, 0x0) => Instruction::SkipIfRegisterEqual(as_ts_pair(x, y)),
        (0x6, register, c1, c2) => Instruction::AssignValueToRegister(as_rv_pair(register, c1, c2)),
        (0x7, register, c1, c2) => Instruction::AddValueToRegister(as_rv_pair(register, c1, c2)),
        (0x8, x, y, 0x0) => Instruction::AssignVYToVX(as_ts_pair(x, y)),
        (0x8, x, y, 0x1) => Instruction::SetXOrY(as_ts_pair(x, y)),
        (0x8, x, y, 0x2) => Instruction::SetXAndY(as_ts_pair(x, y)),
        (0x8, x, y, 0x3) => Instruction::SetXXorY(as_ts_pair(x, y)),
        (0x8, x, y, 0x4) => Instruction::AddYToX(as_ts_pair(x, y)),
        (0x8, x, y, 0x5) => Instruction::SubYFromX(as_ts_pair(x, y)),
        (0x8, x, _, 0x6) => Instruction::ShiftRight(x),
        (0x8, x, y, 0x7) => Instruction::SetXAsYMinusX(as_ts_pair(x, y)),
        (0x8, x, _, 0xE) => Instruction::ShiftLeft(x),
        (0x9, x, y, 0x0) => Instruction::SkipIfRegisterDifferent(as_ts_pair(x, y)),
        (0xA, c1, c2, c3) => Instruction::SetIAs(nibbles_to_addr(c1, c2, c3)),
        (0xB, c1, c2, c3) => Instruction::GoToNPlusV0(nibbles_to_addr(c1, c2, c3)),
        (0xC, register, c1, c2) => Instruction::Random(as_rv_pair(register, c1, c2)),
        (0xD, x, y, height) => Instruction::Draw { x, y, height },
        (0xE, x, 0x9, 0xE) => Instruction::SkipIfKeyPressed(x),
        (0xE, x, 0xA, 0x1) => Instruction::SkipIfKeyNotPressed(x),
        (0xF, x, 0x0, 0x7) => Instruction::SetXAsDelay(x),
        (0xF, x, 0x0, 0xA) => Instruction::WaitForInputAndStoreIn(x),
        (0xF, x, 0x1, 0x5) => Instruction::SetDelayAsX(x),
        (0xF, x, 0x1, 0x8) => Instruction::SetSoundAsX(x),
        (0xF, x, 0x1, 0xE) => Instruction::AddXToI(x),
        (0xF, x, 0x2, 0x9) => Instruction::SetIAsFontSprite(x),
        (0xF, x, 0x3, 0x3) => Instruction::StoreBCD(x),
        (0xF, x, 0x5, 0x5) => Instruction::DumpRegisters(x),
        (0xF, x, 0x6, 0x5) => Instruction::LoadRegisters(x),
        _ => Instruction::InvalidInstruction,
    }
}

} // verus!
