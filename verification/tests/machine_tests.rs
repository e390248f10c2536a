use chip8::machine::{Chip8, Fault, UnknownOpcode, DISPLAY_WIDTH};

fn machine_with(rom: &[u8]) -> Chip8 {
    let mut m = Chip8::new();
    m.load_rom(rom);
    m
}

fn run(m: &mut Chip8, steps: usize) {
    for _ in 0..steps {
        assert_eq!(m.pending_fault(), None);
        assert_eq!(m.step(0), None);
    }
}

const FONT: [u8; 80] = [
    0xF0, 0x90, 0x90, 0x90, 0xF0, 0x20, 0x60, 0x20, 0x20, 0x70, 0xF0, 0x10, 0xF0, 0x80, 0xF0,
    0xF0, 0x10, 0xF0, 0x10, 0xF0, 0x90, 0x90, 0xF0, 0x10, 0x10, 0xF0, 0x80, 0xF0, 0x10, 0xF0,
    0xF0, 0x80, 0xF0, 0x90, 0xF0, 0xF0, 0x10, 0x20, 0x40, 0x40, 0xF0, 0x90, 0xF0, 0x90, 0xF0,
    0xF0, 0x90, 0xF0, 0x10, 0xF0, 0xF0, 0x90, 0xF0, 0x90, 0x90, 0xE0, 0x90, 0xE0, 0x90, 0xE0,
    0xF0, 0x80, 0x80, 0x80, 0xF0, 0xE0, 0x90, 0x90, 0x90, 0xE0, 0xF0, 0x80, 0xF0, 0x80, 0xF0,
    0xF0, 0x80, 0xF0, 0x80, 0x80,
];

#[test]
fn new_machine_starts_at_program_start_with_font() {
    let m = Chip8::new();
    assert_eq!(m.pc(), 0x200);
    assert_eq!(m.index_register(), 0);
    assert_eq!(m.stack_pointer(), 0);
    assert_eq!(m.delay_timer(), 0);
    assert_eq!(m.sound_timer(), 0);
    for a in 0..0x50 {
        assert_eq!(m.memory_byte(a), 0);
    }
    for k in 0..80 {
        assert_eq!(m.memory_byte(0x50 + k), FONT[k]);
    }
    for a in 0xA0..4096 {
        assert_eq!(m.memory_byte(a), 0);
    }
    for x in 0..16 {
        assert_eq!(m.register(x), 0);
    }
    assert!(m.display.iter().all(|p| !p));
    assert!(m.keypad.iter().all(|k| !k));
}

#[test]
fn load_rom_copies_at_0x200_and_keeps_font() {
    let m = machine_with(&[0x12, 0x34, 0x56]);
    assert_eq!(m.memory_byte(0x200), 0x12);
    assert_eq!(m.memory_byte(0x201), 0x34);
    assert_eq!(m.memory_byte(0x202), 0x56);
    assert_eq!(m.memory_byte(0x203), 0);
    assert_eq!(m.memory_byte(0x50), 0xF0);
}

#[test]
fn load_rom_of_maximal_size_fills_memory() {
    let rom = vec![0xAB; chip8::MAX_ROM_SIZE];
    let m = machine_with(&rom);
    assert_eq!(m.memory_byte(0x200), 0xAB);
    assert_eq!(m.memory_byte(4095), 0xAB);
    assert_eq!(m.memory_byte(0x1FF), 0);
}

#[test]
fn decrement_timers_saturates_at_zero() {
    // 6A03 FA15 FA18: V[A] = 3, delay = 3, sound = 3
    let mut m = machine_with(&[0x6A, 0x03, 0xFA, 0x15, 0xFA, 0x18]);
    run(&mut m, 3);
    assert_eq!(m.delay_timer(), 3);
    assert_eq!(m.sound_timer(), 3);
    for expected in [2u8, 1, 0, 0, 0] {
        m.decrement_timers();
        assert_eq!(m.delay_timer(), expected);
        assert_eq!(m.sound_timer(), expected);
    }
}

#[test]
fn load_and_add_immediate_wraps_without_flag() {
    // 6005 70FF 6F07 7F00: V0 = 5, V0 += 0xFF (wraps to 4), VF = 7 untouched
    let mut m = machine_with(&[0x60, 0x05, 0x6F, 0x07, 0x70, 0xFF]);
    run(&mut m, 3);
    assert_eq!(m.register(0), 4);
    assert_eq!(m.register(0xF), 7);
    assert_eq!(m.pc(), 0x206);
}

#[test]
fn add_registers_sets_carry() {
    // 60FF 6101 8014: V0 = 0xFF + 1 -> 0, VF = 1
    let mut m = machine_with(&[0x60, 0xFF, 0x61, 0x01, 0x80, 0x14, 0x62, 0x10, 0x63, 0x20, 0x82, 0x34]);
    run(&mut m, 3);
    assert_eq!(m.register(0), 0);
    assert_eq!(m.register(0xF), 1);
    run(&mut m, 3);
    assert_eq!(m.register(2), 0x30);
    assert_eq!(m.register(0xF), 0);
}

#[test]
fn add_into_flag_register_keeps_the_flag() {
    // 6FFF 6101 8F14: VF = 0xFF + 1; the carry overwrites the sum
    let mut m = machine_with(&[0x6F, 0xFF, 0x61, 0x01, 0x8F, 0x14]);
    run(&mut m, 3);
    assert_eq!(m.register(0xF), 1);
}

#[test]
fn subtract_sets_no_borrow_flag() {
    // 6005 6107 8015: V0 = 5 - 7 = 0xFE, VF = 0
    let mut m = machine_with(&[0x60, 0x05, 0x61, 0x07, 0x80, 0x15, 0x62, 0x09, 0x63, 0x02, 0x82, 0x35]);
    run(&mut m, 3);
    assert_eq!(m.register(0), 0xFE);
    assert_eq!(m.register(0xF), 0);
    run(&mut m, 3);
    assert_eq!(m.register(2), 7);
    assert_eq!(m.register(0xF), 1);
}

#[test]
fn subtract_reversed_sets_no_borrow_flag() {
    // 6005 6107 8017: V0 = 7 - 5 = 2, VF = 1; 6409 6502 8457: V4 = 2 - 9 = 0xF9, VF = 0
    let mut m = machine_with(&[0x60, 0x05, 0x61, 0x07, 0x80, 0x17, 0x64, 0x09, 0x65, 0x02, 0x84, 0x57]);
    run(&mut m, 3);
    assert_eq!(m.register(0), 2);
    assert_eq!(m.register(0xF), 1);
    run(&mut m, 3);
    assert_eq!(m.register(4), 0xF9);
    assert_eq!(m.register(0xF), 0);
}

#[test]
fn equal_operands_give_no_borrow() {
    // 6004 6104 8015: 4 - 4 = 0, VF = 1
    let mut m = machine_with(&[0x60, 0x04, 0x61, 0x04, 0x80, 0x15]);
    run(&mut m, 3);
    assert_eq!(m.register(0), 0);
    assert_eq!(m.register(0xF), 1);
}

#[test]
fn shifts_move_the_lost_bit_to_vf() {
    // 6005 8006: V0 = 5 >> 1 = 2, VF = 1
    // 6181 811E: V1 = 0x81 << 1 = 0x02, VF = 1
    // 6240 820E: V2 = 0x40 << 1 = 0x80, VF = 0
    let mut m = machine_with(&[
        0x60, 0x05, 0x80, 0x06, 0x61, 0x81, 0x81, 0x1E, 0x62, 0x40, 0x82, 0x0E,
    ]);
    run(&mut m, 2);
    assert_eq!(m.register(0), 2);
    assert_eq!(m.register(0xF), 1);
    run(&mut m, 2);
    assert_eq!(m.register(1), 0x02);
    assert_eq!(m.register(0xF), 1);
    run(&mut m, 2);
    assert_eq!(m.register(2), 0x80);
    assert_eq!(m.register(0xF), 0);
}

#[test]
fn bitwise_operations() {
    // 60CC 61AA 8011: V0 = 0xCC | 0xAA = 0xEE
    // 62CC 8212: V2 = 0xCC & 0xAA = 0x88
    // 63CC 8313: V3 = 0xCC ^ 0xAA = 0x66
    // 8410: V4 = V1
    let mut m = machine_with(&[
        0x60, 0xCC, 0x61, 0xAA, 0x80, 0x11, 0x62, 0xCC, 0x82, 0x12, 0x63, 0xCC, 0x83, 0x13,
        0x84, 0x10,
    ]);
    run(&mut m, 8);
    assert_eq!(m.register(0), 0xEE);
    assert_eq!(m.register(2), 0x88);
    assert_eq!(m.register(3), 0x66);
    assert_eq!(m.register(4), 0xAA);
}

#[test]
fn jumps() {
    // 1208: jump to 0x208; at 0x208: 6003 B300 -> pc = 0x300 + 3
    let mut m = machine_with(&[0x12, 0x08, 0, 0, 0, 0, 0, 0, 0x60, 0x03, 0xB3, 0x00]);
    run(&mut m, 1);
    assert_eq!(m.pc(), 0x208);
    run(&mut m, 2);
    assert_eq!(m.pc(), 0x303);
}

#[test]
fn call_then_return_comes_back_after_the_call() {
    // 2206: call 0x206; 0x206: 00EE
    let mut m = machine_with(&[0x22, 0x06, 0x60, 0x01, 0x00, 0x00, 0x00, 0xEE]);
    run(&mut m, 1);
    assert_eq!(m.pc(), 0x206);
    assert_eq!(m.stack_pointer(), 1);
    run(&mut m, 1);
    assert_eq!(m.pc(), 0x202);
    assert_eq!(m.stack_pointer(), 0);
    run(&mut m, 1);
    assert_eq!(m.register(0), 1);
}

#[test]
fn conditional_skips() {
    // 6005 3005 (skip) 0000 4005 (no skip) 5010? V1 = 0 != 5 -> 9010 skips
    let mut m = machine_with(&[
        0x60, 0x05, 0x30, 0x05, 0x00, 0x00, 0x40, 0x05, 0x90, 0x10, 0x00, 0x00, 0x50, 0x10,
        0x61, 0x05, 0x50, 0x10,
    ]);
    run(&mut m, 2);
    assert_eq!(m.pc(), 0x206);
    run(&mut m, 1);
    assert_eq!(m.pc(), 0x208);
    run(&mut m, 1);
    assert_eq!(m.pc(), 0x20C);
    run(&mut m, 1);
    assert_eq!(m.pc(), 0x20E);
    run(&mut m, 2);
    assert_eq!(m.pc(), 0x214);
}

#[test]
fn skip_on_not_equal_immediate() {
    // 4007: V0 = 0 != 7 -> skip
    let mut m = machine_with(&[0x40, 0x07]);
    run(&mut m, 1);
    assert_eq!(m.pc(), 0x204);
}

#[test]
fn clear_screen_turns_every_pixel_off() {
    let mut m = machine_with(&[0x00, 0xE0]);
    m.display[5] = true;
    m.display[2047] = true;
    run(&mut m, 1);
    assert!(m.display.iter().all(|p| !p));
}

#[test]
fn draw_font_zero_at_origin() {
    // A050 D005: draw the glyph 0 at (V0, V0) = (0, 0)
    let mut m = machine_with(&[0xA0, 0x50, 0xD0, 0x05]);
    run(&mut m, 2);
    assert_eq!(m.register(0xF), 0);
    let rows = [0xF0u8, 0x90, 0x90, 0x90, 0xF0];
    for y in 0..32 {
        for x in 0..64 {
            let lit = y < 5 && x < 8 && (rows[y] >> (7 - x)) & 1 == 1;
            assert_eq!(m.display[y * DISPLAY_WIDTH + x], lit, "pixel ({}, {})", x, y);
        }
    }
}

#[test]
fn drawing_twice_erases_and_sets_vf() {
    // A050 D005 D005
    let mut m = machine_with(&[0xA0, 0x50, 0xD0, 0x05, 0xD0, 0x05]);
    run(&mut m, 3);
    assert_eq!(m.register(0xF), 1);
    assert!(m.display.iter().all(|p| !p));
}

#[test]
fn draw_clips_at_right_edge_and_wraps_start() {
    // 603E (V0 = 62) 6100 A050 D011: top row of glyph 0 (0xF0) at x = 62
    let mut m = machine_with(&[0x60, 0x3E, 0x61, 0x00, 0xA0, 0x50, 0xD0, 0x11]);
    run(&mut m, 4);
    assert!(m.display[62]);
    assert!(m.display[63]);
    // no wrap onto the left edge nor the next row
    assert!(!m.display[0]);
    assert!(!m.display[1]);
    assert!(!m.display[64]);
    assert_eq!(m.display.iter().filter(|p| **p).count(), 2);

    // 6041 (V0 = 65 wraps to 1) 6122 (V1 = 34 wraps to 2) D011
    let mut m = machine_with(&[0x60, 0x41, 0x61, 0x22, 0xA0, 0x50, 0xD0, 0x11]);
    run(&mut m, 4);
    for x in 1..5 {
        assert!(m.display[2 * DISPLAY_WIDTH + x]);
    }
    assert_eq!(m.display.iter().filter(|p| **p).count(), 4);
}

#[test]
fn draw_clips_at_bottom_edge() {
    // 601E (V0 = 30) A050 D005: rows 30 and 31 only
    let mut m = machine_with(&[0x60, 0x1E, 0xA0, 0x50, 0xD0, 0x05]);
    run(&mut m, 3);
    // glyph 0 rows 0xF0, 0x90 at y = 30, 31 and x = 30..
    let lit: usize = m.display.iter().filter(|p| **p).count();
    assert_eq!(lit, 4 + 2);
    assert!(m.display[30 * 64 + 30]);
    assert!(m.display[31 * 64 + 33]);
}

#[test]
fn bcd_of_254() {
    // 60FE A300 F033
    let mut m = machine_with(&[0x60, 0xFE, 0xA3, 0x00, 0xF0, 0x33]);
    run(&mut m, 3);
    assert_eq!(m.memory_byte(0x300), 2);
    assert_eq!(m.memory_byte(0x301), 5);
    assert_eq!(m.memory_byte(0x302), 4);
    assert_eq!(m.index_register(), 0x300);
}

#[test]
fn store_then_load_registers_round_trip() {
    // 6011 6122 6233 A300 F255 6000 6100 6200 F265
    let mut m = machine_with(&[
        0x60, 0x11, 0x61, 0x22, 0x62, 0x33, 0xA3, 0x00, 0xF2, 0x55, 0x60, 0x00, 0x61, 0x00,
        0x62, 0x00, 0xF2, 0x65,
    ]);
    run(&mut m, 5);
    assert_eq!(m.memory_byte(0x300), 0x11);
    assert_eq!(m.memory_byte(0x301), 0x22);
    assert_eq!(m.memory_byte(0x302), 0x33);
    assert_eq!(m.memory_byte(0x303), 0);
    assert_eq!(m.index_register(), 0x300);
    run(&mut m, 3);
    assert_eq!(m.register(0), 0);
    run(&mut m, 1);
    assert_eq!(m.register(0), 0x11);
    assert_eq!(m.register(1), 0x22);
    assert_eq!(m.register(2), 0x33);
    assert_eq!(m.register(3), 0);
}

#[test]
fn font_address_and_index_add() {
    // 600A F029: I = 0x50 + 10 * 5
    let mut m = machine_with(&[0x60, 0x0A, 0xF0, 0x29, 0xF0, 0x1E]);
    run(&mut m, 2);
    assert_eq!(m.index_register(), 0x50 + 50);
    assert_eq!(m.memory_byte(m.index_register() as usize), 0xF0);
    assert_eq!(m.memory_byte(m.index_register() as usize + 4), 0x90);
    run(&mut m, 1);
    assert_eq!(m.index_register(), 0x50 + 60);
}

#[test]
fn index_add_wraps_on_sixteen_bits() {
    // AFFF 60FF F01E F01E ... I = 0xFFF + 0xFF, then again: stays below 0x10000
    let mut m = machine_with(&[0xAF, 0xFF, 0x60, 0xFF, 0xF0, 0x1E]);
    run(&mut m, 3);
    assert_eq!(m.index_register(), 0x10FE);
}

#[test]
fn timers_from_registers() {
    // 6042 F015 F007 -> wait: F107 loads delay into V1
    let mut m = machine_with(&[0x60, 0x42, 0xF0, 0x15, 0xF1, 0x07, 0xF0, 0x18]);
    run(&mut m, 4);
    assert_eq!(m.delay_timer(), 0x42);
    assert_eq!(m.sound_timer(), 0x42);
    assert_eq!(m.register(1), 0x42);
}

#[test]
fn wait_key_spins_until_a_key_is_pressed() {
    // F30A
    let mut m = machine_with(&[0xF3, 0x0A]);
    run(&mut m, 1);
    assert_eq!(m.pc(), 0x200);
    run(&mut m, 1);
    assert_eq!(m.pc(), 0x200);
    m.keypad[0xB] = true;
    m.keypad[0x7] = true;
    run(&mut m, 1);
    assert_eq!(m.pc(), 0x202);
    assert_eq!(m.register(3), 0x7);
}

#[test]
fn key_skips() {
    // 6005 E09E (skip if key 5) 0000 E0A1 (skip if not key 5)
    let mut m = machine_with(&[0x60, 0x05, 0xE0, 0x9E, 0x00, 0x00, 0xE0, 0xA1]);
    m.keypad[5] = true;
    run(&mut m, 2);
    assert_eq!(m.pc(), 0x206);
    run(&mut m, 1);
    assert_eq!(m.pc(), 0x208);

    let mut m = machine_with(&[0x60, 0x05, 0xE0, 0x9E, 0xE0, 0xA1]);
    run(&mut m, 2);
    assert_eq!(m.pc(), 0x204);
    run(&mut m, 1);
    assert_eq!(m.pc(), 0x208);
}

#[test]
fn random_masks_the_given_byte() {
    // C30F
    let mut m = machine_with(&[0xC3, 0x0F]);
    assert_eq!(m.step(0xAB), None);
    assert_eq!(m.register(3), 0x0B);
}

#[test]
fn tick_draws_a_masked_random_byte() {
    // C30F many times
    let rom: Vec<u8> = [0xC3u8, 0x0F].repeat(100);
    let mut m = machine_with(&rom);
    for _ in 0..100 {
        assert_eq!(m.tick(), None);
        assert!(m.register(3) <= 0x0F);
    }
}

#[test]
fn tick_without_random_matches_step() {
    let rom = [0x60u8, 0x05, 0x70, 0x03];
    let mut a = machine_with(&rom);
    let mut b = machine_with(&rom);
    for _ in 0..2 {
        assert_eq!(a.tick(), None);
        assert_eq!(b.step(0x5A), None);
    }
    assert_eq!(a.register(0), 8);
    assert_eq!(b.register(0), 8);
    assert_eq!(a.pc(), b.pc());
}

#[test]
fn unknown_opcode_is_reported_and_skipped() {
    let mut m = machine_with(&[0x01, 0x23, 0x80, 0x18]);
    assert_eq!(m.step(0), Some(UnknownOpcode { opcode: 0x0123, address: 0x200 }));
    assert_eq!(m.pc(), 0x202);
    assert_eq!(m.step(0), Some(UnknownOpcode { opcode: 0x8018, address: 0x202 }));
    assert_eq!(m.pc(), 0x204);
}

#[test]
fn faults_are_reported_before_running() {
    // RET on an empty stack
    let m = machine_with(&[0x00, 0xEE]);
    assert_eq!(m.pending_fault(), Some(Fault::StackUnderflow));

    // 16 nested calls fill the stack: 2200 calls itself
    let mut m = machine_with(&[0x22, 0x00]);
    for _ in 0..16 {
        assert_eq!(m.pending_fault(), None);
        m.step(0);
    }
    assert_eq!(m.stack_pointer(), 16);
    assert_eq!(m.pending_fault(), Some(Fault::StackOverflow));

    // a jump to the last byte of memory leaves no room for an opcode
    let mut m = machine_with(&[0x1F, 0xFF]);
    run(&mut m, 1);
    assert_eq!(m.pending_fault(), Some(Fault::PcOutOfMemory));

    // EX9E with a key code past F
    let mut m = machine_with(&[0x60, 0x10, 0xE0, 0x9E]);
    run(&mut m, 1);
    assert_eq!(m.pending_fault(), Some(Fault::KeyOutOfRange));

    // FX33 at the end of memory
    let mut m = machine_with(&[0xAF, 0xFE, 0xF0, 0x33]);
    run(&mut m, 1);
    assert_eq!(m.pending_fault(), Some(Fault::MemoryOutOfRange));

    // FX55 / FX65 past the end of memory
    let mut m = machine_with(&[0xAF, 0xFE, 0xF2, 0x55]);
    run(&mut m, 1);
    assert_eq!(m.pending_fault(), Some(Fault::MemoryOutOfRange));
    let mut m = machine_with(&[0xAF, 0xFE, 0xF1, 0x65]);
    run(&mut m, 1);
    assert_eq!(m.pending_fault(), None);

    // DXYN reading a sprite past the end of memory
    let mut m = machine_with(&[0xAF, 0xFE, 0xD0, 0x03]);
    run(&mut m, 1);
    assert_eq!(m.pending_fault(), Some(Fault::MemoryOutOfRange));
    let mut m = machine_with(&[0xAF, 0xFE, 0xD0, 0x02]);
    run(&mut m, 1);
    assert_eq!(m.pending_fault(), None);
}
