//! What each instruction does, stated directly in terms of the machine state
//! before and after it, one instruction at a time, and what one cycle and one
//! timer period do.
use vstd::prelude::*;
use crate::instruction::{spec_decode, Instruction};
use crate::machine::{
    after_timer_period,
    execute,
    initial_machine,
    next_state,
    step_fault,
    unknown_opcode,
    well_sized,
    with_program,
    Fault,
    Machine,
};
use crate::frame::{run_cycles, unknowns_reported};
use crate::render::frame_of;

verus! {

/// Register `x` holds `val`, the other registers are as in `s`, and nothing
/// outside the registers changed.
pub open spec fn writes_register(s: Machine, t: Machine, x: int, val: int) -> bool {
    &&& t == Machine { v: t.v, ..s }
    &&& t.v.len() == 16
    &&& t.v[x] == val
    &&& forall|k: int| 0 <= k < 16 && k != x ==> #[trigger] t.v[k] == s.v[k]
}

/// Register `x` holds `val` unless it is `VF`, `VF` holds `flag`, the other
/// registers are as in `s`, and nothing outside the registers changed.
pub open spec fn writes_register_and_flag(
    s: Machine,
    t: Machine,
    x: int,
    val: int,
    flag: int,
) -> bool {
    &&& t == Machine { v: t.v, ..s }
    &&& t.v.len() == 16
    &&& x != 15 ==> t.v[x] == val
    &&& t.v[15] == flag
    &&& forall|k: int| 0 <= k < 15 && k != x ==> #[trigger] t.v[k] == s.v[k]
}

/// A cycle fetches the big-endian opcode at `pc`, moves `pc` past it, and
/// executes what it decodes to.
pub proof fn lemma_cycle_fetches_big_endian(s: Machine, r: u8)
    ensures
        next_state(s, r) == execute(
            Machine { pc: (s.pc + 2) as u16, ..s },
            spec_decode((s.memory[s.pc as int] * 256 + s.memory[s.pc + 1]) as u16),
            r,
        ),
{
}

/// One timer period decrements each timer on its own, stopping at zero, and
/// changes nothing else.
pub proof fn lemma_timers_decrement_independently(s: Machine)
    ensures
        after_timer_period(s).delay_timer == (if s.delay_timer == 0 {
            0
        } else {
            s.delay_timer - 1
        }),
        after_timer_period(s).sound_timer == (if s.sound_timer == 0 {
            0
        } else {
            s.sound_timer - 1
        }),
        after_timer_period(s) == (Machine {
            delay_timer: after_timer_period(s).delay_timer,
            sound_timer: after_timer_period(s).sound_timer,
            ..s
        }),
{
}

/// `00E0` turns every pixel off and changes nothing else.
pub proof fn lemma_clear_screen(s: Machine, r: u8)
    requires
        well_sized(s),
    ensures
        ({
            let t = execute(s, Instruction::ClearScreen, r);
            &&& t == Machine { display: t.display, ..s }
            &&& t.display.len() == 2048
            &&& forall|p: int| 0 <= p < 2048 ==> !#[trigger] t.display[p]
        }),
{
}

/// `1NNN` sets `pc` to `NNN`; `BNNN` sets it to `NNN + V0`; nothing else
/// changes.
pub proof fn lemma_jumps(s: Machine, addr: u16, r: u8)
    requires
        well_sized(s),
        addr < 0x1000,
    ensures
        execute(s, Instruction::Jump { addr }, r) == (Machine { pc: addr, ..s }),
        execute(s, Instruction::JumpOffset { addr }, r).pc == addr + s.v[0],
        execute(s, Instruction::JumpOffset { addr }, r) == (Machine {
            pc: execute(s, Instruction::JumpOffset { addr }, r).pc,
            ..s
        }),
{
}

/// `2NNN` pushes the return address on the stack and jumps; `00EE` pops it
/// back into `pc`.
pub proof fn lemma_call_and_return(s: Machine, addr: u16, r: u8)
    requires
        well_sized(s),
    ensures
        s.sp < 16 ==> ({
            let t = execute(s, Instruction::Call { addr }, r);
            &&& t.pc == addr
            &&& t.sp == s.sp + 1
            &&& t.stack.len() == 16
            &&& t.stack[s.sp as int] == s.pc
            &&& forall|k: int| 0 <= k < 16 && k != s.sp ==> #[trigger] t.stack[k] == s.stack[k]
            &&& t == Machine { pc: t.pc, sp: t.sp, stack: t.stack, ..s }
        }),
        0 < s.sp <= 16 ==> ({
            let t = execute(s, Instruction::Return, r);
            &&& t.pc == s.stack[s.sp - 1]
            &&& t.sp == s.sp - 1
            &&& t == Machine { pc: t.pc, sp: t.sp, ..s }
        }),
{
}

/// The conditional skips move `pc` past the next instruction exactly when
/// their condition holds, and change nothing else.
pub proof fn lemma_skips(s: Machine, x: u8, y: u8, nn: u8, r: u8)
    requires
        well_sized(s),
        x < 16,
        y < 16,
        s.pc + 2 < 0x10000,
    ensures
        execute(s, Instruction::SkipIfEqualImm { x, nn }, r) == (Machine {
            pc: if s.v[x as int] == nn {
                (s.pc + 2) as u16
            } else {
                s.pc
            },
            ..s
        }),
        execute(s, Instruction::SkipIfNotEqualImm { x, nn }, r) == (Machine {
            pc: if s.v[x as int] != nn {
                (s.pc + 2) as u16
            } else {
                s.pc
            },
            ..s
        }),
        execute(s, Instruction::SkipIfEqualReg { x, y }, r) == (Machine {
            pc: if s.v[x as int] == s.v[y as int] {
                (s.pc + 2) as u16
            } else {
                s.pc
            },
            ..s
        }),
        execute(s, Instruction::SkipIfNotEqualReg { x, y }, r) == (Machine {
            pc: if s.v[x as int] != s.v[y as int] {
                (s.pc + 2) as u16
            } else {
                s.pc
            },
            ..s
        }),
        s.v[x as int] < 16 ==> execute(s, Instruction::SkipIfKey { x }, r) == (Machine {
            pc: if s.keypad[s.v[x as int] as int] {
                (s.pc + 2) as u16
            } else {
                s.pc
            },
            ..s
        }),
        s.v[x as int] < 16 ==> execute(s, Instruction::SkipIfNotKey { x }, r) == (Machine {
            pc: if !s.keypad[s.v[x as int] as int] {
                (s.pc + 2) as u16
            } else {
                s.pc
            },
            ..s
        }),
{
}

/// The register loads and logic operations write `Vx` only.
pub proof fn lemma_register_writes(s: Machine, x: u8, y: u8, nn: u8, r: u8)
    requires
        well_sized(s),
        x < 16,
        y < 16,
    ensures
        writes_register(s, execute(s, Instruction::LoadImm { x, nn }, r), x as int, nn as int),
        writes_register(
            s,
            execute(s, Instruction::AddImm { x, nn }, r),
            x as int,
            (s.v[x as int] + nn) % 256,
        ),
        writes_register(
            s,
            execute(s, Instruction::Move { x, y }, r),
            x as int,
            s.v[y as int] as int,
        ),
        writes_register(
            s,
            execute(s, Instruction::Or { x, y }, r),
            x as int,
            (s.v[x as int] | s.v[y as int]) as int,
        ),
        writes_register(
            s,
            execute(s, Instruction::And { x, y }, r),
            x as int,
            (s.v[x as int] & s.v[y as int]) as int,
        ),
        writes_register(
            s,
            execute(s, Instruction::Xor { x, y }, r),
            x as int,
            (s.v[x as int] ^ s.v[y as int]) as int,
        ),
        writes_register(
            s,
            execute(s, Instruction::Random { x, nn }, r),
            x as int,
            (r & nn) as int,
        ),
        writes_register(
            s,
            execute(s, Instruction::LoadDelay { x }, r),
            x as int,
            s.delay_timer as int,
        ),
{
}

/// The flag-setting operations write `Vx` and then `VF`: the carry, the
/// absence of borrow, or the bit shifted out.
pub proof fn lemma_flag_writes(s: Machine, x: u8, y: u8, r: u8)
    requires
        well_sized(s),
        x < 16,
        y < 16,
    ensures
        writes_register_and_flag(
            s,
            execute(s, Instruction::AddReg { x, y }, r),
            x as int,
            (s.v[x as int] + s.v[y as int]) % 256,
            if s.v[x as int] + s.v[y as int] >= 256 {
                1
            } else {
                0
            },
        ),
        writes_register_and_flag(
            s,
            execute(s, Instruction::SubReg { x, y }, r),
            x as int,
            (s.v[x as int] - s.v[y as int] + 256) % 256,
            if s.v[x as int] >= s.v[y as int] {
                1
            } else {
                0
            },
        ),
        writes_register_and_flag(
            s,
            execute(s, Instruction::SubReversed { x, y }, r),
            x as int,
            (s.v[y as int] - s.v[x as int] + 256) % 256,
            if s.v[y as int] >= s.v[x as int] {
                1
            } else {
                0
            },
        ),
        writes_register_and_flag(
            s,
            execute(s, Instruction::ShiftRight { x }, r),
            x as int,
            (s.v[x as int] / 2) as int,
            (s.v[x as int] % 2) as int,
        ),
        writes_register_and_flag(
            s,
            execute(s, Instruction::ShiftLeft { x }, r),
            x as int,
            (s.v[x as int] * 2) % 256,
            (s.v[x as int] / 128) as int,
        ),
{
    let v = s.v[x as int];
    assert(v >> 1u8 == v / 2 && v & 1u8 == v % 2) by (bit_vector);
    assert(v << 1u8 == (v * 2) % 256 && (v & 0x80u8) >> 7u8 == v / 128) by (bit_vector);
}

/// `ANNN`, `FX1E` and `FX29` set `I` only; `FX15` and `FX18` set a timer
/// only.
pub proof fn lemma_index_and_timer_writes(s: Machine, x: u8, addr: u16, r: u8)
    requires
        well_sized(s),
        x < 16,
    ensures
        execute(s, Instruction::LoadIndex { addr }, r) == (Machine { i: addr, ..s }),
        execute(s, Instruction::AddIndex { x }, r) == (Machine {
            i: ((s.i + s.v[x as int]) % 0x10000) as u16,
            ..s
        }),
        execute(s, Instruction::LoadFont { x }, r).i == 0x50 + 5 * s.v[x as int],
        execute(s, Instruction::LoadFont { x }, r) == (Machine {
            i: execute(s, Instruction::LoadFont { x }, r).i,
            ..s
        }),
        execute(s, Instruction::SetDelay { x }, r) == (Machine {
            delay_timer: s.v[x as int],
            ..s
        }),
        execute(s, Instruction::SetSound { x }, r) == (Machine {
            sound_timer: s.v[x as int],
            ..s
        }),
{
}

/// `FX33`, `FX55` and `FX65` touch exactly the bytes from `I` they are
/// about: `FX55` writes `V0..=Vx` to `I..=I+x` and keeps every other byte,
/// `FX65` reads `V0..=Vx` from there and keeps the other registers, and
/// `FX33` writes `I..=I+2` only.
pub proof fn lemma_memory_block_transfers(s: Machine, x: u8, r: u8)
    requires
        well_sized(s),
        x < 16,
        s.i + x < 4096,
    ensures
        ({
            let t = execute(s, Instruction::StoreRegs { x }, r);
            &&& t == Machine { memory: t.memory, ..s }
            &&& t.memory.len() == 4096
            &&& forall|k: int| 0 <= k <= x ==> #[trigger] t.memory[s.i + k] == s.v[k]
            &&& forall|a: int|
                0 <= a < 4096 && !(s.i <= a <= s.i + x) ==> #[trigger] t.memory[a]
                    == s.memory[a]
        }),
        ({
            let t = execute(s, Instruction::LoadRegs { x }, r);
            &&& t == Machine { v: t.v, ..s }
            &&& t.v.len() == 16
            &&& forall|k: int| 0 <= k <= x ==> #[trigger] t.v[k] == s.memory[s.i + k]
            &&& forall|k: int| x < k < 16 ==> #[trigger] t.v[k] == s.v[k]
        }),
        s.i + 2 < 4096 ==> ({
            let t = execute(s, Instruction::StoreBcd { x }, r);
            &&& t == Machine { memory: t.memory, ..s }
            &&& t.memory.len() == 4096
            &&& forall|a: int|
                0 <= a < 4096 && !(s.i <= a <= s.i + 2) ==> #[trigger] t.memory[a]
                    == s.memory[a]
        }),
{
}

/// `DXYN` flips each screen pixel that lies `c` columns right of and `r`
/// rows below the start `(Vx % 64, Vy % 32)`, with `r < N` and `c < 8`,
/// exactly when the sprite bit for it (bit `7 - c` of `memory[I + r]`) is
/// set; every other pixel keeps its value, so sprite pixels past the right or
/// bottom edge are dropped rather than wrapped. It changes only the screen
/// and `VF`.
pub proof fn lemma_draw_flips_sprite_pixels(s: Machine, x: u8, y: u8, n: u8, r: u8)
    requires
        well_sized(s),
        x < 16,
        y < 16,
        n < 16,
    ensures
        ({
            let t = execute(s, Instruction::Draw { x, y, n }, r);
            let x0 = s.v[x as int] % 64;
            let y0 = s.v[y as int] % 32;
            &&& t == Machine { display: t.display, v: t.v, ..s }
            &&& t.display.len() == 2048
            &&& t.v.len() == 16
            &&& forall|k: int| 0 <= k < 15 ==> #[trigger] t.v[k] == s.v[k]
            &&& forall|p: int|
                0 <= p < 2048 ==> #[trigger] t.display[p] == if x0 <= p % 64 < x0 + 8 && y0
                    <= p / 64 < y0 + n && (s.memory[s.i + (p / 64 - y0)] >> ((7 - (p % 64
                    - x0)) as u8)) & 1u8 == 1u8 {
                    !s.display[p]
                } else {
                    s.display[p]
                }
        }),
{
}

/// Drawing the single row `0xFF` at a column `c` and row `w` lights the eight
/// pixels `c..c+8` of row `w` that fit on the screen, on a blank screen.
pub proof fn lemma_draw_full_row_lights_eight_pixels(s: Machine, x: u8, y: u8, r: u8)
    requires
        well_sized(s),
        x < 16,
        y < 16,
        s.memory[s.i as int] == 0xFF,
        forall|p: int| 0 <= p < 2048 ==> !s.display[p],
    ensures
        ({
            let t = execute(s, Instruction::Draw { x, y, n: 1 }, r);
            let x0 = s.v[x as int] % 64;
            let y0 = s.v[y as int] % 32;
            forall|p: int|
                0 <= p < 2048 ==> #[trigger] t.display[p] == (p / 64 == y0 && x0 <= p % 64 < x0
                    + 8)
        }),
{
    let t = execute(s, Instruction::Draw { x, y, n: 1 }, r);
    let x0 = s.v[x as int] % 64;
    let y0 = s.v[y as int] % 32;
    lemma_draw_flips_sprite_pixels(s, x, y, 1, r);
    assert forall|p: int| 0 <= p < 2048 implies #[trigger] t.display[p] == (p / 64 == y0 && x0
        <= p % 64 < x0 + 8) by {
        let c = p % 64 - x0;
        if p / 64 == y0 && 0 <= c < 8 {
            let k = (7 - c) as u8;
            assert(k < 8 ==> (0xFFu8 >> k) & 1u8 == 1u8) by (bit_vector);
            assert(s.memory[s.i + (p / 64 - y0)] == 0xFF);
        }
    }
}


/// A cycle stays inside the machine's bounds exactly when: both opcode bytes
/// lie in memory, `RET` has a return address on the stack, `CALL` has a free
/// stack slot, `DXYN` reads its rows below the end of memory, `EX9E`/`EXA1`
/// name a key `0..F`, and `FX33`, `FX55`, `FX65` stay below the end of
/// memory.
pub proof fn lemma_fault_conditions(s: Machine)
    ensures
        s.pc + 1 >= 4096 ==> step_fault(s) == Some(Fault::PcOutOfMemory),
        s.pc + 1 < 4096 ==> step_fault(s) == match spec_decode(
            (s.memory[s.pc as int] * 256 + s.memory[s.pc + 1]) as u16,
        ) {
            Instruction::Return => if s.sp == 0 {
                Some(Fault::StackUnderflow)
            } else if s.sp > 16 {
                Some(Fault::StackOverflow)
            } else {
                None
            },
            Instruction::Call { .. } => if s.sp >= 16 {
                Some(Fault::StackOverflow)
            } else {
                None
            },
            Instruction::Draw { n, .. } => if n > 0 && s.i + n > 4096 {
                Some(Fault::MemoryOutOfRange)
            } else {
                None
            },
            Instruction::SkipIfKey { x } => if s.v[x as int] >= 16 {
                Some(Fault::KeyOutOfRange)
            } else {
                None
            },
            Instruction::SkipIfNotKey { x } => if s.v[x as int] >= 16 {
                Some(Fault::KeyOutOfRange)
            } else {
                None
            },
            Instruction::StoreBcd { .. } => if s.i + 2 >= 4096 {
                Some(Fault::MemoryOutOfRange)
            } else {
                None
            },
            Instruction::StoreRegs { x } => if s.i + x >= 4096 {
                Some(Fault::MemoryOutOfRange)
            } else {
                None
            },
            Instruction::LoadRegs { x } => if s.i + x >= 4096 {
                Some(Fault::MemoryOutOfRange)
            } else {
                None
            },
            _ => None,
        },
{
}

/// A cycle reports the opcode it fetched, and the address it fetched it
/// from, exactly when the opcode is not a known instruction.
pub proof fn lemma_unknown_opcode_report(s: Machine)
    ensures
        ({
            let op = (s.memory[s.pc as int] * 256 + s.memory[s.pc + 1]) as u16;
            &&& (unknown_opcode(s) is Some) == (spec_decode(op) is Unknown)
            &&& unknown_opcode(s) is Some ==> unknown_opcode(s)->0.opcode == op
                && unknown_opcode(s)->0.address == s.pc
        }),
{
}

/// A fresh machine starts at `0x200` with zeroed registers, index, stack,
/// timers, a dark screen, no key pressed, and zeroed memory outside the font
/// at `0x50..0xA0`.
pub proof fn lemma_fresh_machine()
    ensures
        ({
            let s = initial_machine();
            &&& well_sized(s)
            &&& s.pc == 0x200
            &&& s.i == 0
            &&& s.sp == 0
            &&& s.delay_timer == 0
            &&& s.sound_timer == 0
            &&& forall|k: int| 0 <= k < 16 ==> #[trigger] s.v[k] == 0
            &&& forall|k: int| 0 <= k < 16 ==> #[trigger] s.stack[k] == 0
            &&& forall|k: int| 0 <= k < 16 ==> !#[trigger] s.keypad[k]
            &&& forall|p: int| 0 <= p < 2048 ==> !#[trigger] s.display[p]
            &&& forall|a: int|
                0 <= a < 4096 && !(0x50 <= a < 0xA0) ==> #[trigger] s.memory[a] == 0
        }),
{
}

/// Loading a program writes it at `0x200..0x200 + len` and changes no other
/// byte nor anything outside memory.
pub proof fn lemma_load_rom_writes_program_only(s: Machine, rom: Seq<u8>)
    requires
        well_sized(s),
        rom.len() <= 3584,
    ensures
        ({
            let t = with_program(s, rom);
            &&& t == Machine { memory: t.memory, ..s }
            &&& t.memory.len() == 4096
            &&& forall|k: int| 0 <= k < rom.len() ==> #[trigger] t.memory[0x200 + k] == rom[k]
            &&& forall|a: int|
                0 <= a < 4096 && !(0x200 <= a < 0x200 + rom.len()) ==> #[trigger] t.memory[a]
                    == s.memory[a]
        }),
{
}

/// The frame has four bytes per screen pixel, in order: `FF FF FF FF` for a
/// lit pixel and `00 00 00 FF` for a dark one.
pub proof fn lemma_frame_pixels(display: Seq<bool>)
    requires
        display.len() == 2048,
    ensures
        frame_of(display).len() == 8192,
        forall|p: int, c: int|
            0 <= p < 2048 && 0 <= c < 4 ==> #[trigger] frame_of(display)[p * 4 + c] == if c
                == 3 || #[trigger] display[p] {
                0xFFu8
            } else {
                0x00u8
            },
{
    assert forall|p: int, c: int| 0 <= p < 2048 && 0 <= c < 4 implies #[trigger] frame_of(
        display,
    )[p * 4 + c] == if c == 3 || #[trigger] display[p] {
        0xFFu8
    } else {
        0x00u8
    } by {
        vstd::arithmetic::div_mod::lemma_fundamental_div_mod_converse(p * 4 + c, 4, p, c);
    }
}

/// Running no cycle leaves the machine as it is, and running one cycle is
/// `next_state`.
#[verifier::spinoff_prover]
pub proof fn lemma_zero_and_one_cycle(s: Machine, r: u8)
    ensures
        run_cycles(s, Seq::empty()) == s,
        run_cycles(s, seq![r]) == next_state(s, r),
{
    let one = seq![r];
    assert(one.drop_last() =~= Seq::<u8>::empty());
    assert(run_cycles(s, one.drop_last()) == s);
    assert(one.last() == r);
}

/// Running the cycles of `a` then those of `b` is running `a + b`, and
/// reports the unknown opcodes of `a` followed by those of `b`.
#[verifier::spinoff_prover]
pub proof fn lemma_cycles_compose(s: Machine, a: Seq<u8>, b: Seq<u8>)
    ensures
        run_cycles(s, a + b) == run_cycles(run_cycles(s, a), b),
        unknowns_reported(s, a + b) == unknowns_reported(s, a) + unknowns_reported(
            run_cycles(s, a),
            b,
        ),
    decreases b.len(),
{
    if b.len() == 0 {
        assert(a + b =~= a);
        assert(unknowns_reported(s, a) + unknowns_reported(run_cycles(s, a), b) =~= unknowns_reported(s, a));
    } else {
        lemma_cycles_compose(s, a, b.drop_last());
        assert((a + b).drop_last() =~= a + b.drop_last());
        let mid = run_cycles(run_cycles(s, a), b.drop_last());
        let tail = match unknown_opcode(mid) {
            Some(u) => seq![u],
            None => Seq::<crate::machine::UnknownOpcode>::empty(),
        };
        assert(unknowns_reported(s, a) + unknowns_reported(run_cycles(s, a), b.drop_last())
            + tail =~= unknowns_reported(s, a) + (unknowns_reported(
            run_cycles(s, a),
            b.drop_last(),
        ) + tail));
    }
}

/// `FX0A` with a key pressed stores a pressed key in `Vx` and changes
/// nothing else (it does not rewind `pc`).
pub proof fn lemma_wait_key_with_a_key_writes_register(s: Machine, x: u8, r: u8)
    requires
        well_sized(s),
        x < 16,
        exists|k: int| 0 <= k < 16 && s.keypad[k],
    ensures
        ({
            let t = execute(s, Instruction::WaitKey { x }, r);
            &&& writes_register(s, t, x as int, t.v[x as int] as int)
            &&& t.v[x as int] < 16
            &&& s.keypad[t.v[x as int] as int]
        }),
{
    crate::laws::lemma_first_pressed_from(s.keypad, 0);
    let w = choose|k: int| 0 <= k < 16 && s.keypad[k];
    assert(crate::machine::first_pressed(s.keypad) is Some);
}

/// An opcode the machine does not know changes nothing (beyond the cycle
/// moving `pc` past it).
pub proof fn lemma_unknown_changes_nothing(s: Machine, r: u8)
    ensures
        execute(s, Instruction::Unknown, r) == s,
{
}

} // verus!
