use palmer::instructions::{
    as_nibble_array, decode, nibbles_to_addr, nibbles_to_byte, nibbles_to_word, Instruction,
    RegisterValuePair, TargetSourcePair,
};

#[test]
fn convert_to_nibble_array() {
    let result = as_nibble_array(0xFA07);
    assert_eq!(result, [0xF, 0xA, 0x0, 0x7]);
}

#[test]
fn group_macro_test() {
    assert_eq!(0xA, 0xA as u8);
    assert_eq!(0xAB, nibbles_to_byte(0xA, 0xB));
    assert_eq!(0x17B, nibbles_to_addr(0x1, 0x7, 0xB));
    assert_eq!(0xF0DA, nibbles_to_word(0xF, 0x0, 0xD, 0xA))
}

#[test]
fn instructions_call_machine_code() {
    assert_eq!(Instruction::CallMachineCode(0xABC), decode(0x0ABC))
}

#[test]
fn instructions_clear_display() {
    assert_eq!(Instruction::ClearDisplay, decode(0x00E0))
}

#[test]
fn instructions_return_from() {
    assert_eq!(Instruction::Return, decode(0x00EE))
}

#[test]
fn instructions_go_to() {
    assert_eq!(Instruction::GoTo(0x0ABA), decode(0x1ABA))
}

#[test]
fn instructions_call_at() {
    assert_eq!(Instruction::Call(0x0FBF), decode(0x2FBF))
}

#[test]
fn instructions_skip_if_equal() {
    assert_eq!(
        Instruction::SkipIfEqual(RegisterValuePair {
            register: 0xA,
            value: 0xBB
        }),
        decode(0x3ABB)
    )
}

#[test]
fn instructions_skip_if_different() {
    assert_eq!(
        Instruction::SkipIfDifferent(RegisterValuePair {
            register: 0xA,
            value: 0xBB
        }),
        decode(0x4ABB)
    )
}

#[test]
fn instructions_skip_if_register_equal() {
    assert_eq!(
        Instruction::SkipIfRegisterEqual(TargetSourcePair {
            target: 0x1,
            source: 0x2
        }),
        decode(0x5120)
    )
}

#[test]
fn instructions_assign_value_to_register() {
    assert_eq!(
        Instruction::AssignValueToRegister(RegisterValuePair {
            register: 0x2,
            value: 0x44
        }),
        decode(0x6244)
    )
}

#[test]
fn instructions_add_value_to_register() {
    assert_eq!(
        Instruction::AddValueToRegister(RegisterValuePair {
            register: 0x3,
            value: 0x1A
        }),
        decode(0x731A)
    )
}

#[test]
fn instructions_set_vx_as_vy() {
    assert_eq!(
        Instruction::AssignVYToVX(TargetSourcePair {
            target: 0x1,
            source: 0x6
        }),
        decode(0x8160)
    )
}

#[test]
fn instructions_set_x_as_x_or_y() {
    assert_eq!(
        Instruction::SetXOrY(TargetSourcePair {
            target: 0x3,
            source: 0x1
        }),
        decode(0x8311)
    )
}

#[test]
fn instructions_set_x_as_x_and_y() {
    assert_eq!(
        Instruction::SetXAndY(TargetSourcePair {
            target: 0x1,
            source: 0xE
        }),
        decode(0x81E2)
    )
}

#[test]
fn instructions_set_x_as_x_xor_y() {
    assert_eq!(
        Instruction::SetXXorY(TargetSourcePair {
            target: 0xC,
            source: 0xA
        }),
        decode(0x8CA3)
    )
}

#[test]
fn instructions_add_vy_to_vx() {
    assert_eq!(
        Instruction::AddYToX(TargetSourcePair {
            target: 0xE,
            source: 0xD
        }),
        decode(0x8ED4)
    )
}

#[test]
fn instructions_subtract_vy_from_vx() {
    assert_eq!(
        Instruction::SubYFromX(TargetSourcePair {
            target: 0xE,
            source: 0xD
        }),
        decode(0x8ED5)
    )
}

#[test]
fn instructions_shift_right() {
    assert_eq!(Instruction::ShiftRight(0x2), decode(0x82A6))
}

#[test]
fn instructions_set_vx_as_vy_minus_vx() {
    assert_eq!(
        Instruction::SetXAsYMinusX(TargetSourcePair {
            target: 0x3,
            source: 0x2
        }),
        decode(0x8327)
    )
}

#[test]
fn instructions_shift_left() {
    assert_eq!(Instruction::ShiftLeft(0xE), decode(0x8EAE))
}

#[test]
fn instructions_skip_if_register_different() {
    assert_eq!(
        Instruction::SkipIfRegisterDifferent(TargetSourcePair {
            target: 0x4,
            source: 0x3
        }),
        decode(0x9430)
    )
}

#[test]
fn instructions_set_i_as_n() {
    assert_eq!(Instruction::SetIAs(0x0EEE), decode(0xAEEE))
}

#[test]
fn instructions_go_to_n_plus_v0() {
    assert_eq!(Instruction::GoToNPlusV0(0xABF), decode(0xBABF))
}

#[test]
fn instructions_random() {
    assert_eq!(
        Instruction::Random(RegisterValuePair {
            register: 0xA,
            value: 0xBF
        }),
        decode(0xCABF)
    )
}

#[test]
fn instructions_draw() {
    assert_eq!(
        Instruction::Draw {
            x: 0xA,
            y: 0xB,
            height: 0x4
        },
        decode(0xDAB4)
    )
}

#[test]
fn instructions_skip_if_key_pressed() {
    assert_eq!(Instruction::SkipIfKeyPressed(0xA), decode(0xEA9E))
}

#[test]
fn instructions_skip_if_key_not_pressed() {
    assert_eq!(Instruction::SkipIfKeyNotPressed(0xD), decode(0xEDA1))
}

#[test]
fn instructions_get_delay() {
    assert_eq!(Instruction::SetXAsDelay(0x7), decode(0xF707))
}

#[test]
fn wait_for_input_and_store_in() {
    assert_eq!(Instruction::WaitForInputAndStoreIn(0x6), decode(0xF60A))
}

#[test]
fn get_key() {
    assert_eq!(Instruction::WaitForInputAndStoreIn(0x6), decode(0xF60A))
}

#[test]
fn instructions_set_delay() {
    assert_eq!(Instruction::SetDelayAsX(0x2), decode(0xF215))
}

#[test]
fn instructions_set_sound() {
    assert_eq!(Instruction::SetSoundAsX(0xD), decode(0xFD18))
}

#[test]
fn instructions_add_vx_to_i() {
    assert_eq!(Instruction::AddXToI(0xA), decode(0xFA1E))
}

#[test]
fn assign_font_sprite_to_i() {
    assert_eq!(Instruction::SetIAsFontSprite(0x3), decode(0xF329))
}

#[test]
fn set_sprite_to_i() {
    assert_eq!(Instruction::SetIAsFontSprite(0x3), decode(0xF329))
}

#[test]
fn instructions_set_bcd() {
    assert_eq!(Instruction::StoreBCD(0xA), decode(0xFA33))
}

#[test]
fn instructions_reg_dump() {
    assert_eq!(Instruction::DumpRegisters(0xE), decode(0xFE55))
}

#[test]
fn instructions_reg_load() {
    assert_eq!(Instruction::LoadRegisters(0xB), decode(0xFB65))
}

#[test]
fn instructions_invalid_instruction() {
    assert_eq!(Instruction::InvalidInstruction, decode(0x5AB4))
}

#[test]
fn invalid_eight_group_falls_through() {
    assert_eq!(Instruction::InvalidInstruction, decode(0x8AB8));
    assert_eq!(Instruction::InvalidInstruction, decode(0x8ABF));
}

#[test]
fn invalid_f_group_falls_through() {
    assert_eq!(Instruction::InvalidInstruction, decode(0xF0FF));
    assert_eq!(Instruction::InvalidInstruction, decode(0xE000));
}

#[test]
fn call_machine_code() {
    assert_eq!(Instruction::CallMachineCode(0xABC), decode(0x0ABC))
}

#[test]
fn clear_display() {
    assert_eq!(Instruction::ClearDisplay, decode(0x00E0))
}

#[test]
fn return_from() {
    assert_eq!(Instruction::Return, decode(0x00EE))
}

#[test]
fn go_to() {
    assert_eq!(Instruction::GoTo(0x0ABA), decode(0x1ABA))
}

#[test]
fn call_at() {
    assert_eq!(Instruction::Call(0x0FBF), decode(0x2FBF))
}

#[test]
fn skip_if_equal() {
    assert_eq!(
        Instruction::SkipIfEqual(RegisterValuePair {
            register: 0xA,
            value: 0xBB
        }),
        decode(0x3ABB)
    )
}

#[test]
fn skip_if_different() {
    assert_eq!(
        Instruction::SkipIfDifferent(RegisterValuePair {
            register: 0xA,
            value: 0xBB
        }),
        decode(0x4ABB)
    )
}

#[test]
fn skip_if_register_equal() {
    assert_eq!(
        Instruction::SkipIfRegisterEqual(TargetSourcePair {
            target: 0x1,
            source: 0x2
        }),
        decode(0x5120)
    )
}

#[test]
fn assign_value_to_register() {
    assert_eq!(
        Instruction::AssignValueToRegister(RegisterValuePair {
            register: 0x2,
            value: 0x44
        }),
        decode(0x6244)
    )
}

#[test]
fn add_value_to_register() {
    assert_eq!(
        Instruction::AddValueToRegister(RegisterValuePair {
            register: 0x3,
            value: 0x1A
        }),
        decode(0x731A)
    )
}

#[test]
fn set_vx_as_vy() {
    assert_eq!(
        Instruction::AssignVYToVX(TargetSourcePair {
            target: 0x1,
            source: 0x6
        }),
        decode(0x8160)
    )
}

#[test]
fn set_x_as_x_or_y() {
    assert_eq!(
        Instruction::SetXOrY(TargetSourcePair {
            target: 0x3,
            source: 0x1
        }),
        decode(0x8311)
    )
}

#[test]
fn set_x_as_x_and_y() {
    assert_eq!(
        Instruction::SetXAndY(TargetSourcePair {
            target: 0x1,
            source: 0xE
        }),
        decode(0x81E2)
    )
}

#[test]
fn set_x_as_x_xor_y() {
    assert_eq!(
        Instruction::SetXXorY(TargetSourcePair {
            target: 0xC,
            source: 0xA
        }),
        decode(0x8CA3)
    )
}

#[test]
fn add_vy_to_vx() {
    assert_eq!(
        Instruction::AddYToX(TargetSourcePair {
            target: 0xE,
            source: 0xD
        }),
        decode(0x8ED4)
    )
}

#[test]
fn subtract_vy_from_vx() {
    assert_eq!(
        Instruction::SubYFromX(TargetSourcePair {
            target: 0xE,
            source: 0xD
        }),
        decode(0x8ED5)
    )
}

#[test]
fn shift_right() {
    assert_eq!(Instruction::ShiftRight(0x2), decode(0x82A6))
}

#[test]
fn set_vx_as_vy_minus_vx() {
    assert_eq!(
        Instruction::SetXAsYMinusX(TargetSourcePair {
            target: 0x3,
            source: 0x2
        }),
        decode(0x8327)
    )
}

#[test]
fn shift_left() {
    assert_eq!(Instruction::ShiftLeft(0xE), decode(0x8EAE))
}

#[test]
fn skip_if_register_different() {
    assert_eq!(
        Instruction::SkipIfRegisterDifferent(TargetSourcePair {
            target: 0x4,
            source: 0x3
        }),
        decode(0x9430)
    )
}

#[test]
fn set_i_as_n() {
    assert_eq!(Instruction::SetIAs(0x0EEE), decode(0xAEEE))
}

#[test]
fn go_to_n_plus_v0() {
    assert_eq!(Instruction::GoToNPlusV0(0xABF), decode(0xBABF))
}

#[test]
fn random() {
    assert_eq!(
        Instruction::Random(RegisterValuePair {
            register: 0xA,
            value: 0xBF
        }),
        decode(0xCABF)
    )
}

#[test]
fn draw() {
    assert_eq!(
        Instruction::Draw {
            x: 0xA,
            y: 0xB,
            height: 0x4
        },
        decode(0xDAB4)
    )
}

#[test]
fn skip_if_key_pressed() {
    assert_eq!(Instruction::SkipIfKeyPressed(0xA), decode(0xEA9E))
}

#[test]
fn skip_if_key_not_pressed() {
    assert_eq!(Instruction::SkipIfKeyNotPressed(0xD), decode(0xEDA1))
}

#[test]
fn get_delay() {
    assert_eq!(Instruction::SetXAsDelay(0x7), decode(0xF707))
}

#[test]
fn set_delay() {
    assert_eq!(Instruction::SetDelayAsX(0x2), decode(0xF215))
}

#[test]
fn set_sound() {
    assert_eq!(Instruction::SetSoundAsX(0xD), decode(0xFD18))
}

#[test]
fn add_vx_to_i() {
    assert_eq!(Instruction::AddXToI(0xA), decode(0xFA1E))
}

#[test]
fn set_bcd() {
    assert_eq!(Instruction::StoreBCD(0xA), decode(0xFA33))
}

#[test]
fn reg_dump() {
    assert_eq!(Instruction::DumpRegisters(0xE), decode(0xFE55))
}

#[test]
fn reg_load() {
    assert_eq!(Instruction::LoadRegisters(0xB), decode(0xFB65))
}

#[test]
fn invalid_instruction() {
    assert_eq!(Instruction::InvalidInstruction, decode(0x5AB4))
}
