use palmer::audio::AudioDriver;
use palmer::input::Button;
use palmer::processor::{LoadError, MEMORY_SIZE};
use palmer::state::FaultKind;
use palmer::Chip8;

struct TAD {
    pub is_playing: bool,
}

impl AudioDriver for TAD {
    fn new() -> Self {
        Self { is_playing: false }
    }

    fn play_sound(&mut self) {
        self.is_playing = true;
    }
}

fn emulate_cycles(chip: &mut Chip8<TAD>, number_of_cycles: usize) {
    for _ in 0..number_of_cycles {
        chip.emulate_cycle().unwrap();
    }
}

#[test]
fn load_cartridge_and_reset() {
    let mut chip8 = Chip8::new(TAD::new());
    chip8.load(vec![0xFF, 0xF1, 0x01, 0x22]).unwrap();
    assert_eq!(chip8.memory[512..=515], [0xFF, 0xF1, 0x01, 0x22]);
    chip8.reset();
    for index in 512..MEMORY_SIZE {
        assert_eq!(chip8.get_memory(index as u16), 0);
    }
}

#[test]
fn call_subroutine_return_and_jump() {
    let mut chip8 = Chip8::new(TAD::new());
    chip8.load(vec![0x22, 0x04, 0x12, 0x00, 0x00, 0xEE]).unwrap();
    chip8.emulate_cycle().unwrap();
    assert_eq!(chip8.stack[0], 0x202);
    assert_eq!(chip8.stack_pointer, 1);
    assert_eq!(chip8.program_counter, 0x204);
    chip8.emulate_cycle().unwrap();
    assert_eq!(chip8.stack_pointer, 0);
    assert_eq!(chip8.program_counter, 0x202);
    chip8.emulate_cycle().unwrap();
    assert_eq!(chip8.program_counter, 0x200);
}

#[test]
fn vx_operations() {
    let mut chip8 = Chip8::new(TAD::new());

    let instructions = vec![
        0x61, 0xF0, // v1 = 0xf0
        0x71, 0x11, // v1 = 0xf0 + 0x11
        0x82, 0x10, // v2 = v1
        0x61, 0xF0, // v1 = 0xf0
        0x62, 0x11, // v2 = 0x11
        0x81, 0x21, // v1 = v1 | v2 => 0xf1
        0x81, 0x22, // v1 = v1 & v2 => 0x11
        0x61, 0x21, // v1 = 0x21
        0x81, 0x23, // v1 = v1 ^ v2 => 0x30
        0x61, 0xF0, // v1 = 0xf0
        0x81, 0x24, // v1 = v1 + v2 => 0x01; vf = 0x01
        0x81, 0x25, // v1 = v1 - v2 => 0xf0; vf = 0x00
    ];

    chip8.load(instructions).unwrap();

    chip8.emulate_cycle().unwrap();
    assert_eq!(chip8.get_register(1), 0xF0);
    chip8.emulate_cycle().unwrap();
    assert_eq!(chip8.get_register(1), 0x01);
    assert_eq!(chip8.get_register(0xf), 0x00);
    chip8.emulate_cycle().unwrap();
    assert_eq!(chip8.get_register(1), chip8.get_register(2));
    chip8.emulate_cycle().unwrap();
    chip8.emulate_cycle().unwrap();
    chip8.emulate_cycle().unwrap();
    assert_eq!(chip8.get_register(1), 0xf1);
    chip8.emulate_cycle().unwrap();
    assert_eq!(chip8.get_register(1), 0x11);
    chip8.emulate_cycle().unwrap();
    chip8.emulate_cycle().unwrap();
    assert_eq!(chip8.get_register(1), 0x30);
    chip8.emulate_cycle().unwrap();
    chip8.emulate_cycle().unwrap();
    assert_eq!(chip8.get_register(1), 0x01);
    assert_eq!(chip8.get_register(0xf), 0x01);
    chip8.emulate_cycle().unwrap();
    assert_eq!(chip8.get_register(1), 0xf0);
    assert_eq!(chip8.get_register(0xf), 0x00);
}

#[test]
fn set_i_register() {
    let mut chip8 = Chip8::new(TAD::new());

    let instructions = vec![
        0xA5, 0x00, 0x60, 0x05, 0xF0, 0x1E, 0x60, 0x03, 0xF0, 0x29, 0xA5, 0x00, 0x60, 218, 0xF0,
        0x33,
    ];

    chip8.load(instructions).unwrap();

    assert_eq!(chip8.index, 0x0);

    chip8.emulate_cycle().unwrap();

    assert_eq!(chip8.index, 0x500);

    emulate_cycles(&mut chip8, 2);

    assert_eq!(chip8.index, 0x505);

    emulate_cycles(&mut chip8, 2);

    assert_eq!(chip8.index, 15);

    emulate_cycles(&mut chip8, 3);

    assert_eq!(chip8.get_memory(chip8.index), 2);
    assert_eq!(chip8.get_memory(chip8.index + 1), 1);
    assert_eq!(chip8.get_memory(chip8.index + 2), 8);
}

#[test]
fn dump_and_load_registers() {
    let mut chip8 = Chip8::new(TAD::new());

    let instructions = vec![
        0xA4, 0x00, 0x60, 0xF0, 0x61, 0xDD, 0x62, 0x1E, 0x63, 0x17, 0x64, 0x4D, 0x65, 0x29, 0xF5,
        0x55, 0x60, 0x00, 0x61, 0x00, 0x62, 0x00, 0x63, 0x00, 0x64, 0x00, 0x65, 0x00, 0xA4, 0x00,
        0xF5, 0x65,
    ];

    chip8.load(instructions).unwrap();

    chip8.emulate_cycle().unwrap();

    assert_eq!(chip8.index, 0x400);

    emulate_cycles(&mut chip8, 6);

    chip8.emulate_cycle().unwrap();

    assert_eq!(chip8.index, 0x406);

    for index in 0..=5 {
        assert_eq!(
            chip8.get_register(index),
            chip8.get_memory(0x400 + index as u16)
        );
    }

    emulate_cycles(&mut chip8, 6);

    for index in 0..=5 {
        assert_eq!(chip8.get_register(index), 0x0);
    }

    emulate_cycles(&mut chip8, 2);

    for index in 0..=5 {
        assert_eq!(
            chip8.get_register(index),
            chip8.get_memory(0x400 + index as u16)
        );
    }
}

#[test]
fn timers() {
    let mut chip8 = Chip8::new(TAD::new());

    let instructions = vec![0x60, 0x02, 0xF0, 0x15, 0xF0, 0x18];

    chip8.load(instructions).unwrap();

    chip8.emulate_cycle().unwrap();

    chip8.emulate_cycle().unwrap();

    assert_eq!(chip8.delay_timer, 1);

    chip8.emulate_cycle().unwrap();

    assert_eq!(chip8.delay_timer, 0);
    assert_eq!(chip8.sound_timer, 1);

    chip8.emulate_cycle().unwrap();

    assert!(chip8.audio_driver.is_playing);
    assert_eq!(chip8.sound_timer, 0);
}

#[test]
fn set_register_then_read_yields_value() {
    let mut chip8 = palmer::start();
    chip8.load(vec![0x6A, 0x5C]).unwrap();
    chip8.emulate_cycle().unwrap();
    assert_eq!(chip8.get_register(0xA), 0x5C);
}

#[test]
fn add_with_carry_wraps_and_sets_flag() {
    let mut chip8 = palmer::start();
    // v0 = 0xFF; v1 = 0x01; v0 = v0 + v1
    chip8.load(vec![0x60, 0xFF, 0x61, 0x01, 0x80, 0x14]).unwrap();
    emulate_cycles_silent(&mut chip8, 3);
    assert_eq!(chip8.get_register(0), 0x00);
    assert_eq!(chip8.get_register(0xF), 1);
}

#[test]
fn sub_with_borrow_wraps_and_clears_flag() {
    let mut chip8 = palmer::start();
    // v0 = 0x00; v1 = 0x01; v0 = v0 - v1
    chip8.load(vec![0x60, 0x00, 0x61, 0x01, 0x80, 0x15]).unwrap();
    emulate_cycles_silent(&mut chip8, 3);
    assert_eq!(chip8.get_register(0), 0xFF);
    assert_eq!(chip8.get_register(0xF), 0);
}

#[test]
fn shift_right_reports_shifted_out_bit() {
    let mut chip8 = palmer::start();
    // v1 = 0b00000011; v1 >>= 1
    chip8.load(vec![0x61, 0x03, 0x81, 0x06]).unwrap();
    emulate_cycles_silent(&mut chip8, 2);
    assert_eq!(chip8.get_register(1), 0b00000001);
    assert_eq!(chip8.get_register(0xF), 1);
}

#[test]
fn shift_left_reports_shifted_out_bit() {
    let mut chip8 = palmer::start();
    chip8.load(vec![0x61, 0x81, 0x81, 0x0E]).unwrap();
    emulate_cycles_silent(&mut chip8, 2);
    assert_eq!(chip8.get_register(1), 0x02);
    assert_eq!(chip8.get_register(0xF), 1);
}

#[test]
fn bcd_store_writes_three_digits() {
    let mut chip8 = palmer::start();
    // v1 = 123; index = 0x300; bcd store of v1
    chip8.load(vec![0x61, 123, 0xA3, 0x00, 0xF1, 0x33]).unwrap();
    emulate_cycles_silent(&mut chip8, 3);
    assert_eq!(chip8.get_memory(0x300), 1);
    assert_eq!(chip8.get_memory(0x301), 2);
    assert_eq!(chip8.get_memory(0x302), 3);
    assert_eq!(chip8.index, 0x300);
}

#[test]
fn reset_restores_initial_state() {
    let mut chip8 = palmer::start();
    chip8.load(vec![0x61, 0x44, 0xA3, 0x00, 0x22, 0x08]).unwrap();
    emulate_cycles_silent(&mut chip8, 3);
    assert_ne!(chip8.get_register(1), 0);
    chip8.reset();
    for index in 512..MEMORY_SIZE {
        assert_eq!(chip8.get_memory(index as u16), 0);
    }
    for register in 0..16 {
        assert_eq!(chip8.get_register(register), 0);
    }
    assert_eq!(chip8.program_counter, 0x200);
    assert_eq!(chip8.stack_pointer, 0);
    assert_eq!(chip8.index, 0);
    // the font below 0x200 survives a reset
    assert_eq!(chip8.get_memory(0), 0xF0);
}

#[test]
fn wait_for_key_latches_until_a_press() {
    let mut chip8 = palmer::start();
    // wait for a key, store it in v5
    chip8.load(vec![0xF5, 0x0A]).unwrap();
    chip8.emulate_cycle().unwrap();
    assert_eq!(chip8.program_counter, 0x202);
    let register_before = chip8.get_register(5);
    for _ in 0..10 {
        chip8.emulate_cycle().unwrap();
        assert_eq!(chip8.get_register(5), register_before);
        assert_eq!(chip8.program_counter, 0x202);
    }
    chip8.input.key_down(Button::Seven);
    chip8.emulate_cycle().unwrap();
    assert_eq!(chip8.get_register(5), 7);
    // the next cycle fetches again: 0x0000 decodes as the legacy
    // machine-code opcode, a no-op that advances the counter
    chip8.emulate_cycle().unwrap();
    assert_eq!(chip8.program_counter, 0x204);
}

#[test]
fn wait_for_key_picks_lowest_pressed() {
    let mut chip8 = palmer::start();
    chip8.load(vec![0xF0, 0x0A]).unwrap();
    chip8.emulate_cycle().unwrap();
    chip8.input.key_down(Button::Nine);
    chip8.input.key_down(Button::Four);
    chip8.emulate_cycle().unwrap();
    assert_eq!(chip8.get_register(0), 4);
}

#[test]
fn oversized_cartridge_is_rejected() {
    let mut chip8 = palmer::start();
    let too_big = vec![0xAB; 3585];
    assert_eq!(chip8.load(too_big), Err(LoadError { length: 3585 }));
    // nothing was written
    for index in 512..MEMORY_SIZE {
        assert_eq!(chip8.get_memory(index as u16), 0);
    }
    // the largest cartridge that fits is accepted
    let just_fits = vec![0xCD; 3584];
    assert_eq!(chip8.load(just_fits), Ok(()));
    assert_eq!(chip8.get_memory(4095), 0xCD);
}

#[test]
fn return_with_empty_stack_faults() {
    let mut chip8 = palmer::start();
    chip8.load(vec![0x00, 0xEE]).unwrap();
    let fault = chip8.emulate_cycle().unwrap_err();
    assert_eq!(fault.kind, FaultKind::StackUnderflow);
    assert_eq!(fault.program_counter, 0x200);
    assert_eq!(fault.op_code, 0x00EE);
    assert_eq!(fault.stack_pointer, 0);
    // the machine is left as it was and keeps refusing to cycle
    assert_eq!(chip8.program_counter, 0x200);
    assert!(chip8.emulate_cycle().is_err());
}

#[test]
fn seventeenth_nested_call_faults() {
    let mut chip8 = palmer::start();
    // an instruction that calls itself
    chip8.load(vec![0x22, 0x00]).unwrap();
    for depth in 1..=16 {
        chip8.emulate_cycle().unwrap();
        assert_eq!(chip8.stack_pointer, depth);
    }
    let fault = chip8.emulate_cycle().unwrap_err();
    assert_eq!(fault.kind, FaultKind::StackOverflow);
    assert_eq!(fault.stack_pointer, 16);
}

#[test]
fn bcd_store_past_memory_end_faults() {
    let mut chip8 = palmer::start();
    // index = 0xFFF, then bcd store of v0
    chip8.load(vec![0xAF, 0xFF, 0xF0, 0x33]).unwrap();
    chip8.emulate_cycle().unwrap();
    let fault = chip8.emulate_cycle().unwrap_err();
    assert_eq!(fault.kind, FaultKind::MemoryOutOfBounds);
    assert_eq!(fault.op_code, 0xF033);
}

#[test]
fn fetch_past_memory_end_faults() {
    let mut chip8 = palmer::start();
    // jump to 0xFFF, where no whole opcode fits
    chip8.load(vec![0x1F, 0xFF]).unwrap();
    chip8.emulate_cycle().unwrap();
    assert_eq!(chip8.program_counter, 0xFFF);
    let fault = chip8.emulate_cycle().unwrap_err();
    assert_eq!(fault.kind, FaultKind::MemoryOutOfBounds);
    assert_eq!(fault.program_counter, 0xFFF);
    assert_eq!(fault.op_code, 0);
}

#[test]
fn draw_past_memory_end_faults() {
    let mut chip8 = palmer::start();
    // index = 0xFFF, then a five-row sprite would read past the end
    chip8.load(vec![0xAF, 0xFF, 0xD0, 0x05]).unwrap();
    chip8.emulate_cycle().unwrap();
    let fault = chip8.emulate_cycle().unwrap_err();
    assert_eq!(fault.kind, FaultKind::MemoryOutOfBounds);
    assert_eq!(fault.op_code, 0xD005);
}

#[test]
fn key_skip_with_bad_register_value_faults() {
    let mut chip8 = palmer::start();
    // v0 = 0x20 (no such key), then skip-if-key-pressed on v0
    chip8.load(vec![0x60, 0x20, 0xE0, 0x9E]).unwrap();
    chip8.emulate_cycle().unwrap();
    let fault = chip8.emulate_cycle().unwrap_err();
    assert_eq!(fault.kind, FaultKind::KeyOutOfRange);
}

#[test]
fn random_respects_the_mask() {
    let mut chip8 = palmer::start();
    // v3 = random & 0x00, then v4 = random & 0x0F
    chip8.load(vec![0xC3, 0x00, 0xC4, 0x0F]).unwrap();
    emulate_cycles_silent(&mut chip8, 2);
    assert_eq!(chip8.get_register(3), 0);
    assert!(chip8.get_register(4) <= 0x0F);
}

#[test]
fn skip_instructions_move_the_counter() {
    let mut chip8 = palmer::start();
    // v0 = 5; skip if v0 == 5 (taken); anything; v1 = 1
    chip8.load(vec![0x60, 0x05, 0x30, 0x05, 0x00, 0x00, 0x61, 0x01]).unwrap();
    chip8.emulate_cycle().unwrap();
    chip8.emulate_cycle().unwrap();
    assert_eq!(chip8.program_counter, 0x206);
    chip8.emulate_cycle().unwrap();
    assert_eq!(chip8.get_register(1), 1);
}

#[test]
fn skip_if_key_pressed_reads_the_latch() {
    let mut chip8 = palmer::start();
    // v0 = 3; skip if key 3 pressed
    chip8.load(vec![0x60, 0x03, 0xE0, 0x9E, 0x00, 0x00, 0x00, 0x00]).unwrap();
    chip8.input.key_down(Button::Three);
    chip8.emulate_cycle().unwrap();
    chip8.emulate_cycle().unwrap();
    assert_eq!(chip8.program_counter, 0x206);
}

#[test]
fn draw_sets_the_redraw_flag_for_one_cycle() {
    let mut chip8 = palmer::start();
    // index = font glyph 0, draw a 5-row sprite at (v0, v0) = (0, 0)
    chip8.load(vec![0xA0, 0x00, 0xD0, 0x05, 0x00, 0x00]).unwrap();
    chip8.emulate_cycle().unwrap();
    assert!(!chip8.should_draw());
    chip8.emulate_cycle().unwrap();
    assert!(chip8.should_draw());
    // the glyph "0" has its top-left pixel set
    assert!(chip8.display.pixels[0]);
    chip8.emulate_cycle().unwrap();
    assert!(!chip8.should_draw());
}

#[test]
fn drawing_the_same_glyph_twice_collides_and_erases() {
    let mut chip8 = palmer::start();
    chip8
        .load(vec![0xA0, 0x00, 0xD0, 0x05, 0xD0, 0x05, 0x00, 0x00])
        .unwrap();
    emulate_cycles_silent(&mut chip8, 2);
    assert_eq!(chip8.get_register(0xF), 0);
    chip8.emulate_cycle().unwrap();
    assert_eq!(chip8.get_register(0xF), 1);
    assert!(chip8.display.pixels.iter().all(|pixel| { !*pixel }));
}

#[test]
fn clear_display_blanks_the_screen_and_flags_a_redraw() {
    let mut chip8 = palmer::start();
    chip8.load(vec![0xA0, 0x00, 0xD0, 0x05, 0x00, 0xE0]).unwrap();
    emulate_cycles_silent(&mut chip8, 2);
    assert!(chip8.display.pixels.iter().any(|pixel| *pixel));
    chip8.emulate_cycle().unwrap();
    assert!(chip8.display.pixels.iter().all(|pixel| !*pixel));
    assert!(chip8.should_draw());
}

#[test]
fn jump_with_offset_adds_v0() {
    let mut chip8 = palmer::start();
    // v0 = 4; jump to 0x202 + v0
    chip8.load(vec![0x60, 0x04, 0xB2, 0x02, 0x00, 0x00, 0x61, 0x09]).unwrap();
    chip8.emulate_cycle().unwrap();
    chip8.emulate_cycle().unwrap();
    assert_eq!(chip8.program_counter, 0x206);
    chip8.emulate_cycle().unwrap();
    assert_eq!(chip8.get_register(1), 9);
}

#[test]
fn font_table_is_preloaded() {
    let chip8 = palmer::start();
    // glyph for 0
    assert_eq!(chip8.get_memory(0), 0xF0);
    assert_eq!(chip8.get_memory(1), 0x90);
    assert_eq!(chip8.get_memory(2), 0x90);
    assert_eq!(chip8.get_memory(3), 0x90);
    assert_eq!(chip8.get_memory(4), 0xF0);
    // last byte of the glyph for F
    assert_eq!(chip8.get_memory(79), 0x80);
    assert_eq!(chip8.get_memory(80), 0);
}

fn emulate_cycles_silent(
    chip: &mut Chip8<palmer::audio::SilentAudioDriver>,
    number_of_cycles: usize,
) {
    for _ in 0..number_of_cycles {
        chip.emulate_cycle().unwrap();
    }
}
