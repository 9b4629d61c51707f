use chip8::chip8::Chip8;

fn run_program(program: &[u8], cycles: usize) -> Chip8 {
    let mut emulator = Chip8::new();
    emulator.load_rom(program);
    for _ in 0..cycles {
        assert!(emulator.can_cycle());
        emulator.cycle_with_random(0);
    }
    emulator
}

#[test]
fn add_with_carry_keeps_the_whole_sum() {
    for (a, b) in [(0u8, 0u8), (1, 2), (200, 100), (255, 255), (128, 128), (255, 1)] {
        let e = run_program(&[0x61, a, 0x62, b, 0x81, 0x24], 3);
        let total = e.get_register(1) as u32 + 256 * e.get_register(0xF) as u32;
        assert_eq!(total, a as u32 + b as u32);
    }
}

#[test]
fn subtractions_wrap_and_flag_no_borrow() {
    for (a, b) in [(0u8, 0u8), (5, 3), (3, 5), (255, 0), (0, 255), (7, 7), (5, 10), (3, 10)] {
        let e = run_program(&[0x61, a, 0x62, b, 0x81, 0x25], 3);
        assert_eq!(e.get_register(1), a.wrapping_sub(b));
        assert_eq!(e.get_register(0xF), if a > b { 1 } else { 0 });
        let e = run_program(&[0x61, a, 0x62, b, 0x81, 0x27], 3);
        assert_eq!(e.get_register(1), b.wrapping_sub(a));
        assert_eq!(e.get_register(0xF), if b > a { 1 } else { 0 });
    }
}

#[test]
fn add_byte_wraps() {
    for (a, k) in [(0u8, 0u8), (1, 2), (0xFF, 0x01), (0x80, 0x80), (0xFF, 0xFF)] {
        let e = run_program(&[0x61, a, 0x71, k], 2);
        assert_eq!(e.get_register(1), a.wrapping_add(k));
        assert_eq!(e.get_register(0xF), 0);
    }
}

#[test]
fn skip_equal_and_skip_not_equal_are_complements() {
    for (v, k) in [(5u8, 5u8), (5, 6), (0, 0), (255, 0)] {
        let e3 = run_program(&[0x61, v, 0x31, k], 2);
        let e4 = run_program(&[0x61, v, 0x41, k], 2);
        let skipped3 = e3.get_program_counter() == 0x206;
        let skipped4 = e4.get_program_counter() == 0x206;
        assert!(skipped3 != skipped4);
        assert_eq!(skipped4, v != k);
    }
}

#[test]
fn pixels_stay_off_or_fully_on() {
    let program = [0xA0, 0x50, 0x60, 0x38, 0x61, 0x18, 0xD0, 0x14, 0xA0, 0x55, 0xD0, 0x15];
    let e = run_program(&program, 6);
    assert!(e.get_display().iter().all(|p| *p == 0 || *p == 0xFFFFFFFF));
    assert!(e.get_display().iter().any(|p| *p != 0));
}

#[test]
fn shifts_lose_no_bit() {
    for a in [0u8, 1, 2, 0x7F, 0x80, 0x81, 0xFF] {
        let e = run_program(&[0x61, a, 0x81, 0x06], 2);
        assert_eq!(2 * e.get_register(1) as u32 + e.get_register(0xF) as u32, a as u32);
        let e = run_program(&[0x61, a, 0x81, 0x0E], 2);
        assert_eq!(e.get_register(1) as u32 + 256 * e.get_register(0xF) as u32, 2 * a as u32);
    }
}

#[test]
fn bcd_digits_recombine() {
    for v in [0u8, 9, 10, 99, 100, 128, 255] {
        let e = run_program(&[0xA4, 0x00, 0x62, v, 0xF2, 0x33], 3);
        let digits = [e.get_memory(0x400), e.get_memory(0x401), e.get_memory(0x402)];
        assert!(digits.iter().all(|d| *d < 10));
        assert_eq!(digits[0] as u32 * 100 + digits[1] as u32 * 10 + digits[2] as u32, v as u32);
        assert_eq!(e.get_memory(0x3FF), 0);
        assert_eq!(e.get_memory(0x403), 0);
    }
}

#[test]
fn read_after_store_gives_the_registers_back() {
    // V0..VE = 0x10..0x1E; I = 0x500; LD [I], VE; V0..VE = 0; LD VE, [I]
    let mut program = Vec::new();
    for r in 0..15u8 {
        program.extend_from_slice(&[0x60 | r, 0x10 + r]);
    }
    program.extend_from_slice(&[0xA5, 0x00, 0xFE, 0x55]);
    for r in 0..15u8 {
        program.extend_from_slice(&[0x60 | r, 0x00]);
    }
    program.extend_from_slice(&[0xFE, 0x65]);
    let mut e = run_program(&program, 32);
    for r in 0..15u8 {
        assert_eq!(e.get_register(r), 0);
    }
    e.cycle_with_random(0);
    for r in 0..15u8 {
        assert_eq!(e.get_register(r), 0x10 + r);
    }
}

#[test]
fn drawing_twice_restores_the_screen() {
    // Paint the glyph of 2 at (3, 1), then draw the glyph of 1 at (1, 0) twice over it.
    let program = [
        0xA0, 0x5A, 0x60, 0x03, 0x61, 0x01, 0xD0, 0x13, 0xA0, 0x55, 0x60, 0x01, 0x61, 0x00, 0xD0,
        0x13, 0xD0, 0x13,
    ];
    let mut e = run_program(&program, 4);
    let before: Vec<u32> = e.get_display().to_vec();
    assert!(before.iter().any(|p| *p != 0));
    for _ in 0..4 {
        e.cycle_with_random(0);
    }
    assert!(e.get_display().to_vec() != before);
    e.cycle_with_random(0);
    assert_eq!(e.get_display().to_vec(), before);
}
