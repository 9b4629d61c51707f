use chip8::chip8::Chip8;
use chip8::state::{FONT_SET, FONT_SET_START_ADDRESS, MAX_ROM_SIZE, PIXEL_ON, START_ADDRESS};

fn machine(program: &[u8]) -> Chip8 {
    let mut emulator = Chip8::new();
    emulator.load_rom(program);
    emulator
}

fn run(emulator: &mut Chip8, cycles: usize) {
    for _ in 0..cycles {
        assert!(emulator.can_cycle());
        emulator.cycle_with_random(0);
    }
}

#[test]
fn new_machine_holds_font_and_starts_at_0x200() {
    let emulator = Chip8::new();
    assert_eq!(emulator.get_program_counter(), START_ADDRESS);
    assert_eq!(emulator.get_program_counter(), 0x200);
    assert_eq!(emulator.get_index(), 0);
    assert_eq!(emulator.get_stack_pointer(), 0);
    assert_eq!(emulator.get_delay_timer(), 0);
    assert_eq!(emulator.get_sound_timer(), 0);
    for i in 0..80u16 {
        assert_eq!(emulator.get_memory(FONT_SET_START_ADDRESS + i), FONT_SET[i as usize]);
    }
    assert_eq!(emulator.get_memory(0x50), 0xF0);
    assert_eq!(emulator.get_memory(0x9F), 0x80);
    assert_eq!(emulator.get_memory(0x4F), 0);
    assert_eq!(emulator.get_memory(0xA0), 0);
    assert_eq!(emulator.get_memory(0x200), 0);
    for r in 0..16u8 {
        assert_eq!(emulator.get_register(r), 0);
    }
    assert!(emulator.get_display().iter().all(|p| *p == 0));
}

#[test]
fn default_is_new() {
    let a = Chip8::default();
    let b = Chip8::new();
    assert_eq!(a.get_program_counter(), b.get_program_counter());
    for address in 0..4096u16 {
        assert_eq!(a.get_memory(address), b.get_memory(address));
    }
}

#[test]
fn load_rom_copies_program_to_0x200() {
    let emulator = machine(&[0xAB, 0xCD, 0xEF]);
    assert_eq!(emulator.get_memory(0x200), 0xAB);
    assert_eq!(emulator.get_memory(0x201), 0xCD);
    assert_eq!(emulator.get_memory(0x202), 0xEF);
    assert_eq!(emulator.get_memory(0x203), 0);
    assert_eq!(emulator.get_memory(0x50), 0xF0);
}

#[test]
fn load_rom_fills_memory_to_the_end() {
    let rom = vec![0x11u8; MAX_ROM_SIZE];
    let emulator = machine(&rom);
    assert_eq!(emulator.get_memory(0x200), 0x11);
    assert_eq!(emulator.get_memory(0xFFF), 0x11);
    assert_eq!(emulator.get_memory(0x1FF), 0);
}

#[test]
fn ld_byte_and_add_byte() {
    let mut emulator = machine(&[0x63, 0x2A, 0x73, 0x05]);
    run(&mut emulator, 1);
    assert_eq!(emulator.get_register(3), 0x2A);
    assert_eq!(emulator.get_opcode(), 0x632A);
    assert_eq!(emulator.get_program_counter(), 0x202);
    run(&mut emulator, 1);
    assert_eq!(emulator.get_register(3), 0x2F);
    assert_eq!(emulator.get_program_counter(), 0x204);
}

#[test]
fn add_byte_wraps_and_leaves_vf() {
    let mut emulator = machine(&[0x6F, 0x07, 0x63, 0xFF, 0x73, 0x02]);
    run(&mut emulator, 3);
    assert_eq!(emulator.get_register(3), 0x01);
    assert_eq!(emulator.get_register(0xF), 0x07);
}

#[test]
fn jp_jumps() {
    let mut emulator = machine(&[0x12, 0x34]);
    run(&mut emulator, 1);
    assert_eq!(emulator.get_program_counter(), 0x234);
}

#[test]
fn call_then_ret_returns_after_the_call() {
    // 0x200: CALL 0x206; 0x206: RET
    let mut emulator = machine(&[0x22, 0x06, 0x00, 0x00, 0x00, 0x00, 0x00, 0xEE]);
    run(&mut emulator, 1);
    assert_eq!(emulator.get_program_counter(), 0x206);
    assert_eq!(emulator.get_stack_pointer(), 1);
    run(&mut emulator, 1);
    assert_eq!(emulator.get_program_counter(), 0x202);
    assert_eq!(emulator.get_stack_pointer(), 0);
}

#[test]
fn ret_with_empty_stack_is_a_fault() {
    let emulator = machine(&[0x00, 0xEE]);
    assert!(!emulator.can_cycle());
}

#[test]
fn sixteen_nested_calls_fill_the_stack() {
    // 0x200: CALL 0x200, forever
    let mut emulator = machine(&[0x22, 0x00]);
    run(&mut emulator, 16);
    assert_eq!(emulator.get_stack_pointer(), 16);
    assert!(!emulator.can_cycle());
}

#[test]
fn skips_on_byte() {
    // V1 = 5; SE V1, 5 (skips); ..; SNE V1, 5 (does not skip)
    let mut emulator = machine(&[0x61, 0x05, 0x31, 0x05, 0x00, 0x00, 0x41, 0x05]);
    run(&mut emulator, 2);
    assert_eq!(emulator.get_program_counter(), 0x206);
    run(&mut emulator, 1);
    assert_eq!(emulator.get_program_counter(), 0x208);

    let mut emulator = machine(&[0x61, 0x05, 0x31, 0x06]);
    run(&mut emulator, 2);
    assert_eq!(emulator.get_program_counter(), 0x204);

    let mut emulator = machine(&[0x61, 0x05, 0x41, 0x06]);
    run(&mut emulator, 2);
    assert_eq!(emulator.get_program_counter(), 0x206);
}

#[test]
fn skips_on_registers() {
    // V1 = 5, V2 = 5; SE V1, V2 (skips)
    let mut emulator = machine(&[0x61, 0x05, 0x62, 0x05, 0x51, 0x20]);
    run(&mut emulator, 3);
    assert_eq!(emulator.get_program_counter(), 0x208);
    // V1 = 5, V2 = 5; SNE V1, V2 (does not skip)
    let mut emulator = machine(&[0x61, 0x05, 0x62, 0x05, 0x91, 0x20]);
    run(&mut emulator, 3);
    assert_eq!(emulator.get_program_counter(), 0x206);
    // V1 = 5, V2 = 6; SNE V1, V2 (skips)
    let mut emulator = machine(&[0x61, 0x05, 0x62, 0x06, 0x91, 0x20]);
    run(&mut emulator, 3);
    assert_eq!(emulator.get_program_counter(), 0x208);
}

#[test]
fn unknown_opcodes_change_nothing_but_the_program_counter() {
    // 5xy1, 8xy8, F007 and 0123 name no instruction
    let mut emulator = machine(&[0x61, 0x05, 0x51, 0x21, 0x81, 0x28, 0xF1, 0x07, 0x01, 0x23]);
    run(&mut emulator, 5);
    assert_eq!(emulator.get_program_counter(), 0x20A);
    assert_eq!(emulator.get_register(1), 5);
    assert_eq!(emulator.get_register(2), 0);
    assert_eq!(emulator.get_index(), 0);
}

#[test]
fn register_to_register_logic() {
    // V1 = 0b1100, V2 = 0b1010
    let prefix = [0x61, 0x0C, 0x62, 0x0A];
    let cases: [(u8, u8); 4] = [(0x0, 0x0A), (0x1, 0x0E), (0x2, 0x08), (0x3, 0x06)];
    for (n, expected) in cases {
        let mut program = prefix.to_vec();
        program.extend_from_slice(&[0x81, 0x20 | n]);
        let mut emulator = machine(&program);
        run(&mut emulator, 3);
        assert_eq!(emulator.get_register(1), expected);
        assert_eq!(emulator.get_register(2), 0x0A);
    }
}

#[test]
fn add_registers_sets_carry() {
    let mut emulator = machine(&[0x61, 0xFF, 0x62, 0x02, 0x81, 0x24]);
    run(&mut emulator, 3);
    assert_eq!(emulator.get_register(1), 0x01);
    assert_eq!(emulator.get_register(0xF), 1);

    let mut emulator = machine(&[0x61, 0x10, 0x62, 0x02, 0x81, 0x24]);
    run(&mut emulator, 3);
    assert_eq!(emulator.get_register(1), 0x12);
    assert_eq!(emulator.get_register(0xF), 0);
}

#[test]
fn add_into_vf_keeps_the_sum() {
    // VF = 0x80, V1 = 0x90; ADD VF, V1: the sum byte overwrites the carry
    let mut emulator = machine(&[0x6F, 0x80, 0x61, 0x90, 0x8F, 0x14]);
    run(&mut emulator, 3);
    assert_eq!(emulator.get_register(0xF), 0x10);
}

#[test]
fn subtract_registers() {
    let mut emulator = machine(&[0x61, 0x09, 0x62, 0x04, 0x81, 0x25]);
    run(&mut emulator, 3);
    assert_eq!(emulator.get_register(1), 5);
    assert_eq!(emulator.get_register(0xF), 1);

    let mut emulator = machine(&[0x61, 0x04, 0x62, 0x04, 0x81, 0x25]);
    run(&mut emulator, 3);
    assert_eq!(emulator.get_register(1), 0);
    assert_eq!(emulator.get_register(0xF), 0);
}

#[test]
fn subtract_below_zero_wraps() {
    let mut emulator = machine(&[0x61, 0x03, 0x62, 0x04, 0x81, 0x25]);
    run(&mut emulator, 3);
    assert_eq!(emulator.get_register(1), 255);
    assert_eq!(emulator.get_register(0xF), 0);

    let mut emulator = machine(&[0x61, 0x05, 0x62, 0x0A, 0x81, 0x25]);
    run(&mut emulator, 3);
    assert_eq!(emulator.get_register(1), 251);
    assert_eq!(emulator.get_register(2), 10);
    assert_eq!(emulator.get_register(0xF), 0);
}

#[test]
fn subtract_n_takes_vx_from_vy() {
    // V1 = 3, V2 = 10; SUBN V1, V2: V1 = 10 - 3, no borrow
    let mut emulator = machine(&[0x61, 0x03, 0x62, 0x0A, 0x81, 0x27]);
    run(&mut emulator, 3);
    assert_eq!(emulator.get_register(1), 7);
    assert_eq!(emulator.get_register(2), 10);
    assert_eq!(emulator.get_register(0xF), 1);
    // V1 = 5, V2 = 3: V1 = 3 - 5 wraps, borrow
    let mut emulator = machine(&[0x61, 0x05, 0x62, 0x03, 0x81, 0x27]);
    run(&mut emulator, 3);
    assert_eq!(emulator.get_register(1), 254);
    assert_eq!(emulator.get_register(0xF), 0);
}

#[test]
fn shifts_move_the_lost_bit_to_vf() {
    let mut emulator = machine(&[0x61, 0x81, 0x81, 0x06]);
    run(&mut emulator, 2);
    assert_eq!(emulator.get_register(1), 0x40);
    assert_eq!(emulator.get_register(0xF), 1);

    let mut emulator = machine(&[0x61, 0x81, 0x81, 0x0E]);
    run(&mut emulator, 2);
    assert_eq!(emulator.get_register(1), 0x02);
    assert_eq!(emulator.get_register(0xF), 1);

    let mut emulator = machine(&[0x61, 0x40, 0x81, 0x0E]);
    run(&mut emulator, 2);
    assert_eq!(emulator.get_register(1), 0x80);
    assert_eq!(emulator.get_register(0xF), 0);
}

#[test]
fn index_and_jump_with_offset() {
    let mut emulator = machine(&[0xA1, 0x23, 0x60, 0x10, 0xB3, 0x00]);
    run(&mut emulator, 1);
    assert_eq!(emulator.get_index(), 0x123);
    run(&mut emulator, 2);
    assert_eq!(emulator.get_program_counter(), 0x310);
}

#[test]
fn random_byte_is_masked() {
    let mut emulator = machine(&[0xC4, 0x0F]);
    emulator.cycle_with_random(0xAB);
    assert_eq!(emulator.get_register(4), 0x0B);
}

#[test]
fn random_byte_from_the_generator() {
    for _ in 0..20 {
        let mut emulator = machine(&[0xC4, 0xF0]);
        emulator.cycle();
        assert_eq!(emulator.get_register(4) & 0x0F, 0);
        assert_eq!(emulator.get_program_counter(), 0x202);
    }
}

#[test]
fn timers_are_set_and_count_down_to_zero() {
    // V1 = 2; LD DT, V1; LD ST, V1
    let mut emulator = machine(&[0x61, 0x02, 0xF1, 0x15, 0xF1, 0x18]);
    run(&mut emulator, 3);
    assert_eq!(emulator.get_delay_timer(), 2);
    assert_eq!(emulator.get_sound_timer(), 2);
    emulator.cycle_timers();
    assert_eq!(emulator.get_delay_timer(), 1);
    assert_eq!(emulator.get_sound_timer(), 1);
    emulator.cycle_timers();
    emulator.cycle_timers();
    assert_eq!(emulator.get_delay_timer(), 0);
    assert_eq!(emulator.get_sound_timer(), 0);
}

#[test]
fn add_to_index() {
    let mut emulator = machine(&[0xA1, 0x00, 0x62, 0x22, 0xF2, 0x1E]);
    run(&mut emulator, 3);
    assert_eq!(emulator.get_index(), 0x122);
}

#[test]
fn font_address_of_a_digit() {
    let mut emulator = machine(&[0x62, 0x0A, 0xF2, 0x29]);
    run(&mut emulator, 2);
    assert_eq!(emulator.get_index(), 0x50 + 5 * 0x0A);
    assert_eq!(emulator.get_memory(emulator.get_index()), 0xF0);
}

#[test]
fn bcd_of_254() {
    let mut emulator = machine(&[0xA3, 0x00, 0x62, 0xFE, 0xF2, 0x33]);
    run(&mut emulator, 3);
    assert_eq!(emulator.get_memory(0x300), 2);
    assert_eq!(emulator.get_memory(0x301), 5);
    assert_eq!(emulator.get_memory(0x302), 4);
    assert_eq!(emulator.get_memory(0x303), 0);
}

#[test]
fn bcd_past_memory_is_a_fault() {
    let mut emulator = machine(&[0xAF, 0xFE, 0xF2, 0x33]);
    run(&mut emulator, 1);
    assert!(!emulator.can_cycle());
}

#[test]
fn store_and_read_registers() {
    // V0..V2 = 1, 2, 3; I = 0x300; LD [I], V2; V0..V2 = 0; LD V2, [I]
    let program = [
        0x60, 0x01, 0x61, 0x02, 0x62, 0x03, 0x63, 0x09, 0xA3, 0x00, 0xF2, 0x55, 0x60, 0x00, 0x61,
        0x00, 0x62, 0x00, 0xF2, 0x65,
    ];
    let mut emulator = machine(&program);
    run(&mut emulator, 6);
    assert_eq!(emulator.get_memory(0x300), 1);
    assert_eq!(emulator.get_memory(0x301), 2);
    assert_eq!(emulator.get_memory(0x302), 3);
    assert_eq!(emulator.get_memory(0x303), 0);
    run(&mut emulator, 3);
    assert_eq!(emulator.get_register(0), 0);
    run(&mut emulator, 1);
    assert_eq!(emulator.get_register(0), 1);
    assert_eq!(emulator.get_register(1), 2);
    assert_eq!(emulator.get_register(2), 3);
    assert_eq!(emulator.get_register(3), 9);
    assert_eq!(emulator.get_index(), 0x300);
}

#[test]
fn keys_skip_and_wait() {
    // V1 = 7; SKP V1
    let mut emulator = machine(&[0x61, 0x07, 0xE1, 0x9E]);
    run(&mut emulator, 1);
    emulator.key_press(7, true);
    run(&mut emulator, 1);
    assert_eq!(emulator.get_program_counter(), 0x206);

    // V1 = 7; SKNP V1 with the key held: no skip
    let mut emulator = machine(&[0x61, 0x07, 0xE1, 0xA1]);
    emulator.key_press(7, true);
    run(&mut emulator, 2);
    assert_eq!(emulator.get_program_counter(), 0x204);

    // released again: skip
    let mut emulator = machine(&[0x61, 0x07, 0xE1, 0xA1]);
    emulator.key_press(7, true);
    emulator.key_press(7, false);
    run(&mut emulator, 2);
    assert_eq!(emulator.get_program_counter(), 0x206);
}

#[test]
fn skip_on_a_register_that_is_no_key_is_a_fault() {
    let mut emulator = machine(&[0x61, 0x10, 0xE1, 0x9E]);
    run(&mut emulator, 1);
    assert!(!emulator.can_cycle());
}

#[test]
fn wait_for_keypress_repeats_until_a_key_is_held() {
    let mut emulator = machine(&[0xF3, 0x0A]);
    run(&mut emulator, 3);
    assert_eq!(emulator.get_program_counter(), 0x200);
    assert_eq!(emulator.get_register(3), 0);
    emulator.key_press(0xB, true);
    emulator.key_press(0x5, true);
    run(&mut emulator, 1);
    assert_eq!(emulator.get_register(3), 0x5);
    assert_eq!(emulator.get_program_counter(), 0x202);
}

#[test]
fn draw_font_glyph_and_erase_it() {
    // V0 = 0 (digit), I = glyph of 0; V1 = 2, V2 = 1; DRW V1, V2, 5 twice
    let mut emulator = machine(&[0x60, 0x00, 0xF0, 0x29, 0x61, 0x02, 0x62, 0x01, 0xD1, 0x25, 0xD1, 0x25]);
    run(&mut emulator, 5);
    assert_eq!(emulator.get_register(0xF), 0);
    let display = emulator.get_display();
    // Row 0 of the glyph of 0 is 0xF0: pixels (2..6, 1) lit
    for x in 0..64usize {
        let lit = (2..6).contains(&x);
        assert_eq!(display[64 + x] == PIXEL_ON, lit, "pixel {}", x);
    }
    // Row 1 is 0x90: pixels (2, 2) and (5, 2)
    assert_eq!(display[128 + 2], PIXEL_ON);
    assert_eq!(display[128 + 3], 0);
    assert_eq!(display[128 + 5], PIXEL_ON);
    // Row 4 is 0xF0 again: pixels (2..6, 5)
    assert_eq!(display[5 * 64 + 2], PIXEL_ON);
    assert_eq!(display[5 * 64 + 5], PIXEL_ON);
    assert_eq!(display.iter().filter(|p| **p == PIXEL_ON).count(), 14);
    // Drawing again erases the glyph and reports the collision
    run(&mut emulator, 1);
    assert_eq!(emulator.get_register(0xF), 1);
    assert!(emulator.get_display().iter().all(|p| *p == 0));
}

#[test]
fn draw_past_the_bottom_is_a_fault() {
    // V1 = 0, V2 = 31; DRW V1, V2, 2: the second row would lie below the screen
    let mut emulator = machine(&[0x61, 0x00, 0x62, 0x1F, 0xA0, 0x50, 0xD1, 0x22]);
    run(&mut emulator, 3);
    assert!(!emulator.can_cycle());
    // one row on the last line is fine
    let mut emulator = machine(&[0x61, 0x00, 0x62, 0x1F, 0xA0, 0x50, 0xD1, 0x21]);
    run(&mut emulator, 4);
    assert_eq!(emulator.get_display()[31 * 64], PIXEL_ON);
}

#[test]
fn draw_wraps_coordinates() {
    // V1 = 66 (column 2), V2 = 32 (row 0); 0x303 = 0x80 (stored with V3); DRW V1, V2, 1
    let mut emulator = machine(&[0x61, 0x42, 0x62, 0x20, 0xA3, 0x00, 0x63, 0x80, 0xF3, 0x55, 0xA3, 0x03, 0xD1, 0x21]);
    run(&mut emulator, 7);
    let display = emulator.get_display();
    assert_eq!(display[2], PIXEL_ON);
    assert_eq!(display.iter().filter(|p| **p == PIXEL_ON).count(), 1);
}

#[test]
fn draw_low_on_the_screen() {
    // V1 = 60, V2 = 10; I = glyph of 0; DRW V1, V2, 5
    let mut emulator = machine(&[0x61, 0x3C, 0x62, 0x0A, 0xA0, 0x50, 0xD1, 0x25]);
    run(&mut emulator, 4);
    let display = emulator.get_display();
    assert_eq!(display[10 * 64 + 60], PIXEL_ON);
    assert_eq!(display[10 * 64 + 63], PIXEL_ON);
    assert_eq!(display[14 * 64 + 63], PIXEL_ON);
    assert_eq!(display.iter().filter(|p| **p == PIXEL_ON).count(), 14);
}

#[test]
fn draw_with_zero_rows_clears_vf_only() {
    let mut emulator = machine(&[0x6F, 0x07, 0x61, 0x30, 0xD1, 0x10]);
    run(&mut emulator, 3);
    assert_eq!(emulator.get_register(0xF), 0);
    assert!(emulator.get_display().iter().all(|p| *p == 0));
}

#[test]
fn cls_clears_the_screen() {
    let mut emulator = machine(&[0xA0, 0x50, 0xD0, 0x05, 0x00, 0xE0]);
    run(&mut emulator, 2);
    assert!(emulator.get_display().iter().any(|p| *p != 0));
    run(&mut emulator, 1);
    assert!(emulator.get_display().iter().all(|p| *p == 0));
}

#[test]
fn fetch_past_memory_is_a_fault() {
    let mut emulator = machine(&[0x1F, 0xFF]);
    run(&mut emulator, 1);
    assert_eq!(emulator.get_program_counter(), 0xFFF);
    assert!(!emulator.can_cycle());
}

#[test]
fn saved_state_restores_the_machine() {
    let mut emulator = machine(&[0x61, 0x05, 0x71, 0x01, 0x71, 0x01]);
    run(&mut emulator, 2);
    let saved = emulator.get_current_state();
    run(&mut emulator, 1);
    assert_eq!(emulator.get_register(1), 7);
    emulator.load_emulator_state(&saved);
    assert_eq!(emulator.get_register(1), 6);
    assert_eq!(emulator.get_program_counter(), 0x204);
    assert_eq!(saved.get_register(1), 6);
}

#[test]
fn subtractions_read_operands_after_the_flag() {
    // V1 = 10, VF = 3; SUB V1, VF: VF becomes 1 first, then V1 = 10 - 1
    let mut emulator = machine(&[0x61, 0x0A, 0x6F, 0x03, 0x81, 0xF5]);
    run(&mut emulator, 3);
    assert_eq!(emulator.get_register(1), 9);
    assert_eq!(emulator.get_register(0xF), 1);
    // V1 = 3, VF = 10; SUBN V1, VF: VF becomes 1 first, then V1 = 1 - 3 wraps
    let mut emulator = machine(&[0x61, 0x03, 0x6F, 0x0A, 0x81, 0xF7]);
    run(&mut emulator, 3);
    assert_eq!(emulator.get_register(1), 254);
    assert_eq!(emulator.get_register(0xF), 1);
}
