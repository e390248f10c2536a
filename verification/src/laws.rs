//! Properties of the machine that span instructions and operations.
use vstd::prelude::*;
use crate::instruction::{operands_in_range, Instruction};
use crate::machine::{
    advanced,
    current_instruction,
    draw_collides,
    drawn_display,
    execute,
    first_pressed,
    first_pressed_from,
    font_glyphs,
    initial_machine,
    next_state,
    sprite_covers,
    sprite_x0,
    sprite_y0,
    step_fault,
    well_sized,
    with_program,
    Machine,
};

verus! {

/// A `CALL` followed by the `RET` at the called address comes back to the
/// instruction after the call, with the stack pointer restored; the return
/// address stays in the freed stack slot and nothing else changes.
pub proof fn lemma_call_then_return(s: Machine, r1: u8, r2: u8)
    requires
        well_sized(s),
        step_fault(s) is None,
        current_instruction(s) is Call,
        current_instruction(next_state(s, r1)) is Return,
    ensures
        next_state(next_state(s, r1), r2) == (Machine {
            stack: s.stack.update(s.sp as int, (s.pc + 2) as u16),
            pc: (s.pc + 2) as u16,
            ..s
        }),
{
}

/// Storing `V0..=Vx` at `I` and loading them back from `I` gives the same
/// registers.
pub proof fn lemma_store_then_load_registers(s: Machine, x: u8, r1: u8, r2: u8)
    requires
        well_sized(s),
        x < 16,
        s.i + x < 4096,
    ensures
        execute(execute(s, Instruction::StoreRegs { x }, r1), Instruction::LoadRegs { x }, r2).v
            == s.v,
        forall|k: int|
            0 <= k <= x ==> #[trigger] execute(s, Instruction::StoreRegs { x }, r1).memory[s.i
                + k] == s.v[k],
{
    let t = execute(s, Instruction::StoreRegs { x }, r1);
    let u = execute(t, Instruction::LoadRegs { x }, r2);
    assert(u.v =~= s.v);
}

/// `8XY4` computes the full sum: the result plus 256 times the carry flag.
pub proof fn lemma_add_carry(s: Machine, x: u8, y: u8, r: u8)
    requires
        well_sized(s),
        x < 15,
        y < 16,
    ensures
        ({
            let t = execute(s, Instruction::AddReg { x, y }, r);
            &&& t.v[x as int] + 256 * t.v[15] == s.v[x as int] + s.v[y as int]
            &&& t.v[15] <= 1
        }),
{
}

/// `8XY5` computes the full difference: the result minus 256 times the
/// borrow, where the flag is 1 when there is no borrow.
pub proof fn lemma_sub_borrow(s: Machine, x: u8, y: u8, r: u8)
    requires
        well_sized(s),
        x < 15,
        y < 16,
    ensures
        ({
            let t = execute(s, Instruction::SubReg { x, y }, r);
            &&& t.v[x as int] - 256 * (1 - t.v[15]) == s.v[x as int] - s.v[y as int]
            &&& (t.v[15] == 1) == (s.v[x as int] >= s.v[y as int])
            &&& t.v[15] <= 1
        }),
{
}

/// `8XY7` computes the full difference `Vy - Vx` in the same way.
pub proof fn lemma_sub_reversed_borrow(s: Machine, x: u8, y: u8, r: u8)
    requires
        well_sized(s),
        x < 15,
        y < 16,
    ensures
        ({
            let t = execute(s, Instruction::SubReversed { x, y }, r);
            &&& t.v[x as int] - 256 * (1 - t.v[15]) == s.v[y as int] - s.v[x as int]
            &&& (t.v[15] == 1) == (s.v[y as int] >= s.v[x as int])
            &&& t.v[15] <= 1
        }),
{
}

/// The shifts lose no bit: the shifted-out bit lands in `VF`.
pub proof fn lemma_shifts_keep_the_lost_bit(s: Machine, x: u8, r: u8)
    requires
        well_sized(s),
        x < 15,
    ensures
        ({
            let t = execute(s, Instruction::ShiftRight { x }, r);
            2 * t.v[x as int] + t.v[15] == s.v[x as int] && t.v[15] <= 1
        }),
        ({
            let t = execute(s, Instruction::ShiftLeft { x }, r);
            t.v[x as int] + 256 * t.v[15] == 2 * s.v[x as int] && t.v[15] <= 1
        }),
{
    let v = s.v[x as int];
    assert(2 * (v >> 1u8) + (v & 1u8) == v && (v & 1u8) <= 1) by (bit_vector);
    assert((v << 1u8) + 256 * ((v & 0x80u8) >> 7u8) == 2 * v && ((v & 0x80u8) >> 7u8) <= 1)
        by (bit_vector);
}

/// `FX33` stores the three decimal digits of `Vx`, most significant first.
pub proof fn lemma_bcd_digits(s: Machine, x: u8, r: u8)
    requires
        well_sized(s),
        x < 16,
        s.i + 2 < 4096,
    ensures
        ({
            let m = execute(s, Instruction::StoreBcd { x }, r).memory;
            &&& 100 * m[s.i as int] + 10 * m[s.i + 1] + m[s.i + 2] == s.v[x as int]
            &&& m[s.i as int] <= 2
            &&& m[s.i + 1] < 10
            &&& m[s.i + 2] < 10
        }),
{
}

/// Drawing the same sprite twice at the same place restores the screen
/// (when neither coordinate register is the flag register `VF`, which the
/// first drawing overwrites).
pub proof fn lemma_draw_twice_restores(s: Machine, x: u8, y: u8, n: u8, r1: u8, r2: u8)
    requires
        well_sized(s),
        x < 15,
        y < 15,
        n < 16,
    ensures
        execute(
            execute(s, Instruction::Draw { x, y, n }, r1),
            Instruction::Draw { x, y, n },
            r2,
        ).display == s.display,
{
    let t = execute(s, Instruction::Draw { x, y, n }, r1);
    let u = execute(t, Instruction::Draw { x, y, n }, r2);
    assert(sprite_x0(t, x) == sprite_x0(s, x));
    assert(sprite_y0(t, y) == sprite_y0(s, y));
    assert(u.display =~= s.display);
}

/// After `DXYN`, `VF` is 1 exactly when some pixel that was lit is now off,
/// and 0 otherwise.
pub proof fn lemma_draw_flag_reports_erased_pixels(s: Machine, x: u8, y: u8, n: u8, r: u8)
    requires
        well_sized(s),
        x < 16,
        y < 16,
        n < 16,
    ensures
        ({
            let t = execute(s, Instruction::Draw { x, y, n }, r);
            &&& (t.v[15] == 1) == (exists|idx: int|
                0 <= idx < 2048 && s.display[idx] && !#[trigger] t.display[idx])
            &&& t.v[15] <= 1
        }),
{
    let t = execute(s, Instruction::Draw { x, y, n }, r);
    let x0 = sprite_x0(s, x);
    let y0 = sprite_y0(s, y);
    if draw_collides(s, x, y, n) {
        let w = choose|idx: int|
            0 <= idx < 2048 && #[trigger] sprite_covers(s.memory, s.i, x0, y0, n as int, idx)
                && s.display[idx];
        assert(s.display[w] && !t.display[w]);
    }
    if exists|idx: int| 0 <= idx < 2048 && s.display[idx] && !#[trigger] t.display[idx] {
        let w = choose|idx: int| 0 <= idx < 2048 && s.display[idx] && !#[trigger] t.display[idx];
        assert(sprite_covers(s.memory, s.i, x0, y0, n as int, w));
    }
}

/// When the destination register is `VF` itself, the flag is written last
/// and wins over the result.
pub proof fn lemma_flag_wins_in_vf(s: Machine, y: u8, r: u8)
    requires
        well_sized(s),
        y < 16,
    ensures
        execute(s, Instruction::AddReg { x: 15, y }, r).v[15] == (if s.v[15] + s.v[y as int]
            > 255 {
            1u8
        } else {
            0u8
        }),
        execute(s, Instruction::SubReg { x: 15, y }, r).v[15] == (if s.v[15] >= s.v[y as int] {
            1u8
        } else {
            0u8
        }),
        execute(s, Instruction::SubReversed { x: 15, y }, r).v[15] == (if s.v[y as int]
            >= s.v[15] {
            1u8
        } else {
            0u8
        }),
        execute(s, Instruction::ShiftRight { x: 15 }, r).v[15] == s.v[15] & 1u8,
        execute(s, Instruction::ShiftLeft { x: 15 }, r).v[15] == (s.v[15] & 0x80u8) >> 7u8,
{
}

/// The sprite's start wraps onto the screen, but the sprite itself is
/// clipped at the right and bottom edges, not wrapped: every pixel that a
/// drawing changes lies in the sprite's box, right of and below its start.
pub proof fn lemma_draw_is_clipped(s: Machine, x: u8, y: u8, n: u8, r: u8)
    requires
        well_sized(s),
        x < 16,
        y < 16,
        n < 16,
    ensures
        sprite_x0(s, x) == s.v[x as int] % 64,
        sprite_y0(s, y) == s.v[y as int] % 32,
        forall|idx: int|
            0 <= idx < 2048 && #[trigger] execute(s, Instruction::Draw { x, y, n }, r).display[idx]
                != s.display[idx] ==> {
                &&& sprite_x0(s, x) <= idx % 64 < sprite_x0(s, x) + 8
                &&& sprite_y0(s, y) <= idx / 64 < sprite_y0(s, y) + n
            },
{
}

/// Searching for a pressed key from `k` finds the lowest pressed key at or
/// after `k`.
pub proof fn lemma_first_pressed_from(keypad: Seq<bool>, k: int)
    requires
        0 <= k <= 16,
        keypad.len() == 16,
    ensures
        match first_pressed_from(keypad, k) {
            Some(j) => k <= j < 16 && keypad[j] && forall|i: int| k <= i < j ==> !keypad[i],
            None => forall|i: int| k <= i < 16 ==> !keypad[i],
        },
    decreases 16 - k,
{
    if k < 16 {
        lemma_first_pressed_from(keypad, k + 1);
    }
}

/// `FX0A` with no key pressed spins: the cycle leaves the machine exactly as
/// it was, so the same instruction runs again next cycle.
pub proof fn lemma_wait_key_spins(s: Machine, r: u8)
    requires
        well_sized(s),
        step_fault(s) is None,
        current_instruction(s) is WaitKey,
        forall|k: int| 0 <= k < 16 ==> !s.keypad[k],
    ensures
        next_state(s, r) == s,
{
    lemma_first_pressed_from(s.keypad, 0);
    assert(first_pressed(s.keypad) is None);
}

/// `FX0A` with keys pressed stores the lowest pressed key code in `Vx`.
pub proof fn lemma_wait_key_takes_lowest_key(s: Machine, x: u8, r: u8)
    requires
        well_sized(s),
        x < 16,
        exists|k: int| 0 <= k < 16 && s.keypad[k],
    ensures
        ({
            let key = execute(s, Instruction::WaitKey { x }, r).v[x as int];
            &&& key < 16
            &&& s.keypad[key as int]
            &&& forall|j: int| 0 <= j < key ==> !s.keypad[j]
        }),
{
    lemma_first_pressed_from(s.keypad, 0);
}

/// With the font in place, `FX29` points `I` at the five rows of the glyph of
/// the hexadecimal digit in `Vx`.
pub proof fn lemma_font_address(s: Machine, x: u8, r: u8)
    requires
        well_sized(s),
        x < 16,
        s.v[x as int] < 16,
        forall|a: int| 0x50 <= a < 0xA0 ==> s.memory[a] == font_glyphs()[a - 0x50],
    ensures
        ({
            let t = execute(s, Instruction::LoadFont { x }, r);
            forall|k: int|
                0 <= k < 5 ==> #[trigger] t.memory[t.i + k] == font_glyphs()[5 * s.v[x as int]
                    + k]
        }),
{
}

/// Loading a program keeps the font: programs start past it.
pub proof fn lemma_load_keeps_font(s: Machine, rom: Seq<u8>)
    requires
        well_sized(s),
        rom.len() <= 3584,
    ensures
        forall|a: int|
            0 <= a < 0x200 ==> #[trigger] with_program(s, rom).memory[a] == s.memory[a],
        forall|k: int|
            0 <= k < rom.len() ==> #[trigger] with_program(s, rom).memory[0x200 + k] == rom[k],
{
}

/// A fresh machine holds the font at `0x50`, and still does after a program
/// is loaded.
pub proof fn lemma_fresh_machine_has_font(rom: Seq<u8>)
    requires
        rom.len() <= 3584,
    ensures
        forall|a: int|
            0x50 <= a < 0xA0 ==> #[trigger] with_program(initial_machine(), rom).memory[a]
                == font_glyphs()[a - 0x50],
{
}

/// The random byte matters to `CXNN` only: every other instruction's cycle
/// is the same whatever byte is given.
pub proof fn lemma_random_only_for_cxnn(s: Machine, r1: u8, r2: u8)
    requires
        !(current_instruction(s) is Random),
    ensures
        next_state(s, r1) == next_state(s, r2),
{
}

/// A cycle never writes the keypad, and keeps the sizes of the state.
pub proof fn lemma_cycle_keeps_keypad_and_sizes(s: Machine, r: u8)
    requires
        well_sized(s),
        step_fault(s) is None,
    ensures
        next_state(s, r).keypad == s.keypad,
        well_sized(next_state(s, r)),
{
    let ins = current_instruction(s);
    let a = advanced(s);
    assert(operands_in_range(ins));
    if let Instruction::Draw { x, y, n } = ins {
        assert(drawn_display(a, x, y, n).len() == 2048);
    }
}

/// Only `FX33` and `FX55` write memory.
pub proof fn lemma_only_stores_write_memory(s: Machine, r: u8)
    requires
        !(current_instruction(s) is StoreBcd),
        !(current_instruction(s) is StoreRegs),
    ensures
        next_state(s, r).memory == s.memory,
{
}

/// The call stack never holds more than 16 return addresses: a cycle that
/// runs starts and ends with `sp <= 16`.
pub proof fn lemma_stack_pointer_bounded(s: Machine, r: u8)
    requires
        s.sp <= 16,
        step_fault(s) is None,
    ensures
        next_state(s, r).sp <= 16,
{
}

} // verus!
