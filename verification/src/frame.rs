use crate::fault::Fault;
use crate::machine::{is_outcome, Chip8};
use vstd::prelude::*;

verus! {

impl Chip8 {
    /// Runs one frame: `cycles` cycles, then one tick of the timers. Returns
    /// whether a beep is due.
    ///
    /// The first cycle that is refused ends the frame with its fault: the
    /// machine is then as the cycles before it left it, and the timers have
    /// not ticked.
    pub fn run_frame(&mut self, cycles: usize) -> (result: Result<bool, Fault>)
        ensures
            exists|randoms: Seq<u8>|
                {
                    let run = #[trigger] old(self)@.cycles(randoms);
                    &&& randoms.len() <= cycles
                    &&& match result {
                        Ok(beep) => {
                            &&& randoms.len() == cycles
                            &&& run.fault is None
                            &&& final(self)@ == run.machine.tick()
                            &&& beep == run.machine.beeps()
                        },
                        Err(fault) => {
                            &&& run.fault == Some(fault)
                            &&& final(self)@ == run.machine
                        },
                    }
                },
    {
        let ghost mut randoms: Seq<u8> = Seq::empty();
        let mut done: usize = 0;
        while done < cycles
            invariant
                done <= cycles,
                randoms.len() == done,
                old(self)@.cycles(randoms).fault is None,
                old(self)@.cycles(randoms).machine == self@,
            decreases cycles - done,
        {
            let ghost before = *self;
            let outcome = self.emulate_cycle();
            proof {
                let random = choose|random: u8|
                    is_outcome(before, *self, outcome, #[trigger] before@.cycle(random));
                let longer = randoms.push(random);
                assert(longer.drop_last() == randoms);
                assert(longer.last() == random);
                randoms = longer;
            }
            match outcome {
                Ok(()) => {},
                Err(fault) => {
                    return Err(fault);
                },
            }
            done += 1;
        }
        Ok(self.update_timers())
    }
}

} // verus!
