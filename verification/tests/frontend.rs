use chip8::chip8::Chip8;
use chip8::frontend::{key_to_btn, screen_rects, HostKey, PixelRect, PIXEL_SCALE};
use chip8::session::{FrameOutcome, HostEvent, Session, TICKS_PER_FRAME};

const MAPPED: [(HostKey, u8); 16] = [
    (HostKey::Num1, 0x1),
    (HostKey::Num2, 0x2),
    (HostKey::Num3, 0x3),
    (HostKey::Num4, 0xC),
    (HostKey::Q, 0x4),
    (HostKey::W, 0x5),
    (HostKey::E, 0x6),
    (HostKey::R, 0xD),
    (HostKey::A, 0x7),
    (HostKey::S, 0x8),
    (HostKey::D, 0x9),
    (HostKey::F, 0xE),
    (HostKey::Z, 0xA),
    (HostKey::X, 0x0),
    (HostKey::C, 0xB),
    (HostKey::V, 0xF),
];

#[test]
fn key_map_matches_the_keypad_layout() {
    for (key, btn) in MAPPED {
        assert_eq!(key_to_btn(key), Some(btn));
    }
    assert_eq!(key_to_btn(HostKey::Space), None);
    assert_eq!(key_to_btn(HostKey::F5), None);
    assert_eq!(key_to_btn(HostKey::F8), None);
    assert_eq!(key_to_btn(HostKey::Other), None);
}

#[test]
fn key_map_is_one_to_one_onto_the_sixteen_buttons() {
    let mut seen = [false; 16];
    for (key, _) in MAPPED {
        let btn = key_to_btn(key).unwrap() as usize;
        assert!(!seen[btn]);
        seen[btn] = true;
    }
    assert!(seen.iter().all(|s| *s));
}

#[test]
fn screen_rects_cover_the_lit_pixels_in_order() {
    let mut display = [0u32; 2048];
    display[0] = 0xFFFFFFFF;
    display[65] = 0xFFFFFFFF;
    display[2047] = 1;
    let rects = screen_rects(&display);
    assert_eq!(
        rects,
        vec![
            PixelRect { x: 0, y: 0, width: 10, height: 10 },
            PixelRect { x: 10, y: 10, width: 10, height: 10 },
            PixelRect { x: 630, y: 310, width: 10, height: 10 },
        ]
    );
    assert_eq!(PIXEL_SCALE, 10);
    assert!(screen_rects(&[0u32; 2048]).is_empty());
}

#[test]
fn screen_rects_of_a_drawn_sprite() {
    let mut emulator = Chip8::new();
    // I = glyph of 0; DRW V0, V0, 1 at (0, 0): 0xF0
    emulator.load_rom(&[0xA0, 0x50, 0xD0, 0x01]);
    emulator.cycle_with_random(0);
    emulator.cycle_with_random(0);
    let rects = screen_rects(emulator.get_display());
    let xs: Vec<i32> = rects.iter().map(|r| r.x).collect();
    assert_eq!(xs, vec![0, 10, 20, 30]);
    assert!(rects.iter().all(|r| r.y == 0));
}

fn session(program: &[u8]) -> Session {
    let mut emulator = Chip8::new();
    emulator.load_rom(program);
    Session::new(emulator)
}

#[test]
fn quit_stops_and_other_events_keep_running() {
    let mut s = session(&[]);
    assert!(!s.paused);
    assert!(s.save_state.is_none());
    assert!(s.handle_event(HostEvent::Other));
    assert!(s.handle_event(HostEvent::KeyDown(HostKey::Other)));
    assert!(!s.handle_event(HostEvent::Quit));
}

#[test]
fn space_toggles_pause() {
    let mut s = session(&[]);
    assert!(s.handle_event(HostEvent::KeyDown(HostKey::Space)));
    assert!(s.paused);
    assert!(s.handle_event(HostEvent::KeyUp(HostKey::Space)));
    assert!(s.paused);
    assert!(s.handle_event(HostEvent::KeyDown(HostKey::Space)));
    assert!(!s.paused);
}

#[test]
fn key_events_press_and_release_buttons() {
    // SKP V0 (V0 = 0): key X is button 0
    let mut s = session(&[0xE0, 0x9E]);
    s.handle_event(HostEvent::KeyDown(HostKey::X));
    s.emulator.cycle_with_random(0);
    assert_eq!(s.emulator.get_program_counter(), 0x204);

    let mut s = session(&[0xE0, 0x9E]);
    s.handle_event(HostEvent::KeyDown(HostKey::X));
    s.handle_event(HostEvent::KeyUp(HostKey::X));
    s.emulator.cycle_with_random(0);
    assert_eq!(s.emulator.get_program_counter(), 0x202);
}

#[test]
fn f5_saves_and_f8_restores() {
    let mut s = session(&[0x61, 0x05, 0x71, 0x01]);
    s.emulator.cycle_with_random(0);
    // F8 with nothing saved changes nothing
    s.handle_event(HostEvent::KeyDown(HostKey::F8));
    assert_eq!(s.emulator.get_register(1), 5);
    s.handle_event(HostEvent::KeyDown(HostKey::F5));
    assert!(s.save_state.is_some());
    s.emulator.cycle_with_random(0);
    assert_eq!(s.emulator.get_register(1), 6);
    s.handle_event(HostEvent::KeyDown(HostKey::F8));
    assert_eq!(s.emulator.get_register(1), 5);
    assert_eq!(s.emulator.get_program_counter(), 0x202);
}

#[test]
fn frame_runs_ten_cycles_and_one_timer_tick() {
    // V1 = 5; LD DT, V1; then JP to itself
    let mut s = session(&[0x61, 0x05, 0xF1, 0x15, 0x12, 0x04]);
    assert_eq!(TICKS_PER_FRAME, 10);
    assert_eq!(s.run_frame(), FrameOutcome::Ran);
    assert_eq!(s.emulator.get_delay_timer(), 4);
    assert_eq!(s.emulator.get_program_counter(), 0x204);
}

#[test]
fn frame_counts_cycles() {
    // ten ADD V1, 1
    let mut program = Vec::new();
    for _ in 0..20 {
        program.extend_from_slice(&[0x71, 0x01]);
    }
    let mut s = session(&program);
    assert_eq!(s.run_frame(), FrameOutcome::Ran);
    assert_eq!(s.emulator.get_register(1), 10);
    assert_eq!(s.emulator.get_program_counter(), 0x200 + 20);
}

#[test]
fn paused_frame_runs_nothing() {
    let mut s = session(&[0x71, 0x01]);
    s.handle_event(HostEvent::KeyDown(HostKey::Space));
    assert_eq!(s.run_frame(), FrameOutcome::Paused);
    assert_eq!(s.emulator.get_register(1), 0);
    assert_eq!(s.emulator.get_program_counter(), 0x200);
}

#[test]
fn frame_stops_before_a_fault() {
    // two ADD V1, 1 then RET with an empty stack
    let mut s = session(&[0x71, 0x01, 0x71, 0x01, 0x00, 0xEE]);
    assert_eq!(s.run_frame(), FrameOutcome::Fault);
    assert_eq!(s.emulator.get_register(1), 2);
    assert_eq!(s.emulator.get_program_counter(), 0x204);
}
