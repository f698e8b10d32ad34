use vstd::prelude::*;
use crate::chip8::Chip8;
use crate::memory::MEMORY_SIZE;
use crate::semantics::{MachineState, advanced, opcode_at, runs_to, step};
use crate::timer::count_down;

verus! {

/// Instructions run per frame.
pub const CYCLES_PER_FRAME: usize = 10;

/// Why a frame stopped before its last instruction.
#[derive(Debug, PartialEq, Eq)]
pub enum FrameStop {
    /// An instruction hit a stack fault; the fault's message.
    StackFault(&'static str),
    /// The program counter left memory, so no opcode could be fetched.
    PcOutsideMemory,
}

/// One instruction cycle from `s` with `random` as `Cxkk`'s byte: the
/// machine after it and whether it ran. When the program counter has left
/// memory nothing runs; on a stack fault the counter stays moved past the
/// faulting instruction.
pub open spec fn cycle_outcome(s: MachineState, random: u8) -> (MachineState, Result<(), FrameStop>) {
    if s.pc + 1 >= MEMORY_SIZE {
        (s, Err(FrameStop::PcOutsideMemory))
    } else {
        match step(advanced(s), opcode_at(s.memory, s.pc), random) {
            Ok(next) => (next, Ok(())),
            Err(msg) => (advanced(s), Err(FrameStop::StackFault(msg))),
        }
    }
}

/// Running one cycle per byte of `randoms`, in order, stopping at the first
/// that does not run.
pub open spec fn cycles_outcome(s: MachineState, randoms: Seq<u8>) -> (
    MachineState,
    Result<(), FrameStop>,
)
    decreases randoms.len(),
{
    if randoms.len() == 0 {
        (s, Ok(()))
    } else {
        let (mid, r) = cycles_outcome(s, randoms.drop_last());
        if r is Ok {
            cycle_outcome(mid, randoms.last())
        } else {
            (mid, r)
        }
    }
}

/// `s` with both timers counted down once.
pub open spec fn timers_ticked(s: MachineState) -> MachineState {
    MachineState { dt: count_down(s.dt), st: count_down(s.st), ..s }
}

/// A frame: the cycles, then, if they all ran, one countdown of the timers.
pub open spec fn frame_outcome(s: MachineState, randoms: Seq<u8>) -> (
    MachineState,
    Result<(), FrameStop>,
) {
    let (mid, r) = cycles_outcome(s, randoms);
    if r is Ok {
        (timers_ticked(mid), Ok(()))
    } else {
        (mid, r)
    }
}

/// Once a cycle has stopped, later bytes change nothing.
proof fn lemma_stopped_stays(s: MachineState, done: Seq<u8>, rest: Seq<u8>)
    requires
        cycles_outcome(s, done).1 is Err,
    ensures
        cycles_outcome(s, done + rest) == cycles_outcome(s, done),
    decreases rest.len(),
{
    if rest.len() > 0 {
        lemma_stopped_stays(s, done, rest.drop_last());
        assert((done + rest).drop_last() =~= done + rest.drop_last());
    } else {
        assert(done + rest =~= done);
    }
}

impl Chip8 {
    /// Runs one frame: `CYCLES_PER_FRAME` instruction cycles, stopping at
    /// the first stack fault or when the program counter has left memory,
    /// then, if all ran, one countdown of both timers.
    pub fn run_frame(&mut self) -> (r: Result<(), FrameStop>)
        requires
            old(self).wf(),
        ensures
            final(self).wf(),
            exists|randoms: Seq<u8>|
                randoms.len() == CYCLES_PER_FRAME && frame_outcome(old(self)@, randoms) == (
                    final(self)@,
                    r,
                ),
    {
        let ghost mut randoms: Seq<u8> = Seq::empty();
        let mut k: usize = 0;
        while k < CYCLES_PER_FRAME
            invariant
                self.wf(),
                k <= CYCLES_PER_FRAME,
                randoms.len() == k,
                cycles_outcome(old(self)@, randoms) == (self@, Ok::<(), FrameStop>(())),
            decreases CYCLES_PER_FRAME - k,
        {
            let ghost before = self@;
            if self.cpu.pc as usize + 1 >= MEMORY_SIZE {
                proof {
                    let done = randoms.push(0u8);
                    assert(done.drop_last() =~= randoms);
                    let rest = Seq::new((CYCLES_PER_FRAME - k - 1) as nat, |j: int| 0u8);
                    lemma_stopped_stays(old(self)@, done, rest);
                    assert((done + rest).len() == CYCLES_PER_FRAME);
                    assert(frame_outcome(old(self)@, done + rest) == (
                        self@,
                        Err::<(), FrameStop>(FrameStop::PcOutsideMemory),
                    ));
                }
                return Err(FrameStop::PcOutsideMemory);
            }
            let r = self.cycle();
            let ghost b: u8 = choose|b: u8|
                runs_to(
                    advanced(before),
                    opcode_at(before.memory, before.pc),
                    b,
                    self@,
                    r,
                );
            proof {
                let done = randoms.push(b);
                assert(done.drop_last() =~= randoms);
                randoms = done;
            }
            match r {
                Ok(()) => {},
                Err(msg) => {
                    proof {
                        let rest = Seq::new((CYCLES_PER_FRAME - k - 1) as nat, |j: int| 0u8);
                        lemma_stopped_stays(old(self)@, randoms, rest);
                        assert((randoms + rest).len() == CYCLES_PER_FRAME);
                        assert(frame_outcome(old(self)@, randoms + rest) == (
                            self@,
                            Err::<(), FrameStop>(FrameStop::StackFault(msg)),
                        ));
                    }
                    return Err(FrameStop::StackFault(msg));
                },
            }
            k = k + 1;
        }
        self.timer.tick();
        assert(frame_outcome(old(self)@, randoms) == (self@, Ok::<(), FrameStop>(())));
        Ok(())
    }
}

} // verus!
