//! One 60 Hz frame of the machine: a batch of CPU cycles, then one timer
//! period.
use vstd::prelude::*;
use crate::machine::{
    after_timer_period,
    next_state,
    step_fault,
    unknown_opcode,
    Chip8,
    Fault,
    Machine,
    UnknownOpcode,
};

verus! {

/// CHIP-8 CPU speed: instructions per second.
pub const CPU_HZ: u32 = 700;

/// Timer and render rate.
pub const TIMER_HZ: u32 = 60;

/// CPU cycles to run per 60 Hz frame (700 / 60, about 11).
pub const CYCLES_PER_FRAME: usize = 11;

/// The machine after running one cycle per byte of `randoms`, in order, each
/// cycle's `CXNN` masking its byte.
pub open spec fn run_cycles(s: Machine, randoms: Seq<u8>) -> Machine
    decreases randoms.len(),
{
    if randoms.len() == 0 {
        s
    } else {
        next_state(run_cycles(s, randoms.drop_last()), randoms.last())
    }
}

/// Whether each of those cycles starts inside the machine's bounds.
pub open spec fn cycles_in_bounds(s: Machine, randoms: Seq<u8>) -> bool {
    forall|k: int|
        0 <= k < randoms.len() ==> (#[trigger] step_fault(run_cycles(s, randoms.take(k))))
            is None
}

/// The unknown opcodes that those cycles report, in order.
pub open spec fn unknowns_reported(s: Machine, randoms: Seq<u8>) -> Seq<UnknownOpcode>
    decreases randoms.len(),
{
    if randoms.len() == 0 {
        Seq::empty()
    } else {
        let before = randoms.drop_last();
        unknowns_reported(s, before) + match unknown_opcode(run_cycles(s, before)) {
            Some(u) => seq![u],
            None => Seq::empty(),
        }
    }
}

impl Chip8 {
    /// Runs `cycles` CPU cycles, then one timer period. Stops before the
    /// first cycle that would leave the machine's bounds and returns its
    /// fault; otherwise returns the unknown opcodes met, in order.
    pub fn run_frame(&mut self, cycles: usize) -> (res: Result<Vec<UnknownOpcode>, Fault>)
        ensures
            match res {
                Ok(unknowns) => exists|randoms: Seq<u8>|
                    {
                        &&& randoms.len() == cycles
                        &&& cycles_in_bounds(old(self)@, randoms)
                        &&& final(self)@ == after_timer_period(
                            #[trigger] run_cycles(old(self)@, randoms),
                        )
                        &&& unknowns@ == unknowns_reported(old(self)@, randoms)
                    },
                Err(fault) => exists|randoms: Seq<u8>|
                    {
                        &&& randoms.len() < cycles
                        &&& cycles_in_bounds(old(self)@, randoms)
                        &&& final(self)@ == #[trigger] run_cycles(old(self)@, randoms)
                        &&& step_fault(final(self)@) == Some(fault)
                    },
            },
    {
        let ghost s0 = self@;
        let ghost mut randoms: Seq<u8> = Seq::empty();
        let mut unknowns: Vec<UnknownOpcode> = Vec::new();
        let mut k: usize = 0;
        assert(run_cycles(s0, randoms) == s0);
        while k < cycles
            invariant
                s0 == old(self)@,
                k <= cycles,
                randoms.len() == k,
                cycles_in_bounds(s0, randoms),
                self@ == run_cycles(s0, randoms),
                unknowns@ == unknowns_reported(s0, randoms),
            decreases cycles - k,
        {
            match self.pending_fault() {
                Some(fault) => {
                    return Err(fault);
                },
                None => {},
            }
            let ghost before = self@;
            let unknown = self.tick();
            proof {
                let r = choose|r: u8| self@ == #[trigger] next_state(before, r);
                let extended = randoms.push(r);
                assert(extended.drop_last() =~= randoms);
                assert forall|j: int| 0 <= j < extended.len() implies (#[trigger] step_fault(
                    run_cycles(s0, extended.take(j)),
                )) is None by {
                    if j < k {
                        assert(extended.take(j) =~= randoms.take(j));
                    } else {
                        assert(extended.take(j) =~= randoms);
                    }
                }
                randoms = extended;
            }
            match unknown {
                Some(u) => {
                    unknowns.push(u);
                },
                None => {},
            }
            k = k + 1;
        }
        self.decrement_timers();
        Ok(unknowns)
    }
}

} // verus!
