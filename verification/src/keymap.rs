//! The physical keyboard layout of the CHIP-8 hex keypad.
//!
//! The keypad is mapped onto the top-left 4x4 block of the keyboard by
//! physical position (macOS scancodes), so that it does not depend on the
//! keyboard layout:
//!
//! ```text
//!   Physical position ->  CHIP-8 keypad
//!   1 2 3 4           ->  1 2 3 C
//!   Q W E R           ->  4 5 6 D
//!   A S D F           ->  7 8 9 E
//!   Z X C V           ->  A 0 B F
//! ```
use vstd::prelude::*;

verus! {

/// The keypad key at a physical key position, given by its macOS scancode.
pub open spec fn keypad_key(scancode: u32) -> Option<usize> {
    if scancode == 18 {
        Some(0x1)
    } else if scancode == 19 {
        Some(0x2)
    } else if scancode == 20 {
        Some(0x3)
    } else if scancode == 21 {
        Some(0xC)
    } else if scancode == 12 {
        Some(0x4)
    } else if scancode == 13 {
        Some(0x5)
    } else if scancode == 14 {
        Some(0x6)
    } else if scancode == 15 {
        Some(0xD)
    } else if scancode == 0 {
        Some(0x7)
    } else if scancode == 1 {
        Some(0x8)
    } else if scancode == 2 {
        Some(0x9)
    } else if scancode == 3 {
        Some(0xE)
    } else if scancode == 6 {
        Some(0xA)
    } else if scancode == 7 {
        Some(0x0)
    } else if scancode == 8 {
        Some(0xB)
    } else if scancode == 9 {
        Some(0xF)
    } else {
        None
    }
}

/// Maps a physical key (by macOS scancode) to a CHIP-8 keypad index
/// `0..16`; `None` for a key outside the keypad block.
pub fn scancode_to_chip8(scancode: u32) -> (key: Option<usize>)
    ensures
        key == keypad_key(scancode),
{
    match scancode {
        18 => Some(0x1),
        19 => Some(0x2),
        20 => Some(0x3),
        21 => Some(0xC),
        12 => Some(0x4),
        13 => Some(0x5),
        14 => Some(0x6),
        15 => Some(0xD),
        0 => Some(0x7),
        1 => Some(0x8),
        2 => Some(0x9),
        3 => Some(0xE),
        6 => Some(0xA),
        7 => Some(0x0),
        8 => Some(0xB),
        9 => Some(0xF),
        _ => None,
    }
}

/// The scancode of the physical key that holds keypad key `k`.
pub open spec fn key_position(k: usize) -> u32 {
    if k == 0x0 {
        7
    } else if k == 0x1 {
        18
    } else if k == 0x2 {
        19
    } else if k == 0x3 {
        20
    } else if k == 0x4 {
        12
    } else if k == 0x5 {
        13
    } else if k == 0x6 {
        14
    } else if k == 0x7 {
        0
    } else if k == 0x8 {
        1
    } else if k == 0x9 {
        2
    } else if k == 0xA {
        6
    } else if k == 0xB {
        8
    } else if k == 0xC {
        21
    } else if k == 0xD {
        15
    } else if k == 0xE {
        3
    } else {
        9
    }
}

/// Every key of the keypad sits at exactly one physical key: the mapping
/// yields keypad indices only, no two scancodes share a key, and each of the
/// 16 keys is reached from its position.
pub proof fn lemma_keypad_layout_is_one_to_one()
    ensures
        forall|sc: u32| #[trigger] keypad_key(sc) is Some ==> keypad_key(sc)->0 < 16,
        forall|a: u32, b: u32|
            #[trigger] keypad_key(a) == #[trigger] keypad_key(b) && keypad_key(a) is Some ==> a
                == b,
        forall|k: usize| k < 16 ==> keypad_key(#[trigger] key_position(k)) == Some(k),
{
}

} // verus!
