use chip8::frame::CYCLES_PER_FRAME;
use chip8::keymap::scancode_to_chip8;
use chip8::machine::{Chip8, Fault, UnknownOpcode};
use chip8::render::frame_rgba;

#[test]
fn scancodes_map_onto_the_keypad_by_position() {
    let table = [
        (18, 0x1), (19, 0x2), (20, 0x3), (21, 0xC),
        (12, 0x4), (13, 0x5), (14, 0x6), (15, 0xD),
        (0, 0x7), (1, 0x8), (2, 0x9), (3, 0xE),
        (6, 0xA), (7, 0x0), (8, 0xB), (9, 0xF),
    ];
    let mut seen = [false; 16];
    for (scancode, key) in table {
        assert_eq!(scancode_to_chip8(scancode), Some(key));
        assert!(!seen[key]);
        seen[key] = true;
    }
    assert!(seen.iter().all(|s| *s));
    for scancode in [4u32, 5, 10, 11, 16, 17, 22, 53, 1000] {
        assert_eq!(scancode_to_chip8(scancode), None);
    }
}

#[test]
fn frame_is_white_on_black() {
    let mut display = [false; 2048];
    display[1] = true;
    display[2047] = true;
    let rgba = frame_rgba(&display);
    assert_eq!(rgba.len(), 8192);
    assert_eq!(&rgba[0..4], &[0x00, 0x00, 0x00, 0xff]);
    assert_eq!(&rgba[4..8], &[0xff, 0xff, 0xff, 0xff]);
    assert_eq!(&rgba[8188..8192], &[0xff, 0xff, 0xff, 0xff]);
    assert_eq!(rgba.iter().filter(|b| **b == 0xff).count(), 2048 + 2 * 3);
}

#[test]
fn a_frame_runs_eleven_cycles_then_the_timers() {
    assert_eq!(CYCLES_PER_FRAME, 11);
    // 6A09 FA15 then 7001 nine times
    let mut rom = vec![0x6A, 0x09, 0xFA, 0x15];
    for _ in 0..10 {
        rom.extend_from_slice(&[0x70, 0x01]);
    }
    let mut m = Chip8::new();
    m.load_rom(&rom);
    assert_eq!(m.run_frame(CYCLES_PER_FRAME), Ok(vec![]));
    assert_eq!(m.pc(), 0x200 + 2 * 11);
    assert_eq!(m.register(0), 9);
    assert_eq!(m.delay_timer(), 8);
}

#[test]
fn a_frame_reports_unknown_opcodes_in_order() {
    let mut m = Chip8::new();
    m.load_rom(&[0x01, 0x11, 0x60, 0x01, 0x02, 0x22]);
    let unknowns = m.run_frame(3).unwrap();
    assert_eq!(
        unknowns,
        vec![
            UnknownOpcode { opcode: 0x0111, address: 0x200 },
            UnknownOpcode { opcode: 0x0222, address: 0x204 },
        ]
    );
    assert_eq!(m.register(0), 1);
}

#[test]
fn a_frame_stops_at_a_fault_without_ticking_timers() {
    // 6A05 FA15 00EE: RET with an empty stack
    let mut m = Chip8::new();
    m.load_rom(&[0x6A, 0x05, 0xFA, 0x15, 0x00, 0xEE]);
    assert_eq!(m.run_frame(CYCLES_PER_FRAME), Err(Fault::StackUnderflow));
    assert_eq!(m.pc(), 0x204);
    assert_eq!(m.delay_timer(), 5);
}
