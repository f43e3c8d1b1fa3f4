use crate::fault::Fault;
use crate::model::{Machine, FONTSET, FONTSET_SIZE, MEMORY_SIZE, PROGRAM_START};
use vstd::prelude::*;

verus! {

/// The machine: memory, registers, stack, timers, keypad and framebuffer.
///
/// A host sets `key` between cycles, reads `gfx` when `draw_flag` is set,
/// and clears that flag once the frame is shown. Every state is accepted:
/// what an operation cannot work on it refuses with a [`Fault`].
#[derive(Debug, PartialEq, Eq)]
pub struct Chip8 {
    /// Set when the framebuffer changed; the renderer clears it.
    pub draw_flag: bool,
    /// The framebuffer, 64 by 32 cells row by row; a lit cell holds 1.
    pub gfx: [u8; 2048],
    /// Which keys are held down.
    pub key: [bool; 16],
    /// The instruction word executed last.
    pub opcode: u16,
    /// Memory: the font set from 0, the program from 0x200.
    pub memory: [u8; 4096],
    /// The registers `V0` to `VF`.
    pub v: [u8; 16],
    /// The index register `I`.
    pub index: usize,
    /// The program counter.
    pub pc: usize,
    /// Counts down to zero, one per frame.
    pub delay_timer: u8,
    /// Counts down to zero, one per frame; a beep is due when it leaves 1.
    pub sound_timer: u8,
    /// The addresses of the calls in progress.
    pub stack: [usize; 16],
    /// Number of calls in progress.
    pub sp: usize,
}

impl View for Chip8 {
    type V = Machine;

    open spec fn view(&self) -> Machine {
        Machine {
            draw_flag: self.draw_flag,
            gfx: self.gfx@,
            key: self.key@,
            opcode: self.opcode,
            memory: self.memory@,
            v: self.v@,
            index: self.index as int,
            pc: self.pc as int,
            delay_timer: self.delay_timer,
            sound_timer: self.sound_timer,
            stack: Seq::new(16, |i: int| self.stack[i] as int),
            sp: self.sp as int,
        }
    }
}

impl Clone for Chip8 {
    /// A second machine in the same state.
    fn clone(&self) -> (copy: Chip8)
        ensures
            copy == *self,
    {
        Chip8 {
            draw_flag: self.draw_flag,
            gfx: self.gfx,
            key: self.key,
            opcode: self.opcode,
            memory: self.memory,
            v: self.v,
            index: self.index,
            pc: self.pc,
            delay_timer: self.delay_timer,
            sound_timer: self.sound_timer,
            stack: self.stack,
            sp: self.sp,
        }
    }
}

/// Whether an operation that should have `expected` for its outcome went
/// from `before` to `after` with `result`: on success the machine is the
/// expected one, on a fault the fault is the expected one and the machine
/// is untouched.
pub open spec fn is_outcome(
    before: Chip8,
    after: Chip8,
    result: Result<(), Fault>,
    expected: Result<Machine, Fault>,
) -> bool {
    match expected {
        Ok(next) => result is Ok && after@ == next,
        Err(fault) => result == Err::<(), Fault>(fault) && after == before,
    }
}

impl Chip8 {
    /// A machine with everything at zero and the program counter at 0x200.
    pub fn new() -> (machine: Chip8)
        ensures
            machine@ == Machine::initial(),
    {
        Chip8 {
            draw_flag: false,
            gfx: [0u8; 2048],
            key: [false; 16],
            opcode: 0,
            memory: [0u8; 4096],
            v: [0u8; 16],
            index: 0,
            pc: 0x200,
            delay_timer: 0,
            sound_timer: 0,
            stack: [0usize; 16],
            sp: 0,
        }
    }

    /// The view of a machine has the shape of a machine.
    pub proof fn lemma_view_wf(&self)
        ensures
            self@.wf(),
    {
    }

    /// Puts the font set at the bottom of memory.
    pub fn init(&mut self)
        ensures
            final(self)@ == old(self)@.with_font(),
    {
        let mut i: usize = 0;
        while i < FONTSET_SIZE
            invariant
                i <= 80,
                self@ == (Machine { memory: self@.memory, ..old(self)@ }),
                forall|a: int| 0 <= a < i ==> self.memory[a] == FONTSET[a],
                forall|a: int| i <= a < 4096 ==> self.memory[a] == old(self).memory[a],
            decreases 80 - i,
        {
            self.memory[i] = FONTSET[i];
            i += 1;
        }
    }

    /// Copies a program into memory from 0x200 on. A program that does not
    /// fit is refused, and memory stays as it is.
    pub fn load_rom(&mut self, program: &[u8]) -> (result: Result<(), Fault>)
        ensures
            is_outcome(*old(self), *final(self), result, old(self)@.load(program@)),
    {
        let len: usize = program.len();
        if len > MEMORY_SIZE - PROGRAM_START {
            return Err(Fault::Capacity { len });
        }
        let mut i: usize = 0;
        while i < len
            invariant
                i <= len <= 4096 - 0x200,
                len == program@.len(),
                self@ == (Machine { memory: self@.memory, ..old(self)@ }),
                forall|a: int| 0x200 <= a < 0x200 + i ==> self.memory[a] == program@[a - 0x200],
                forall|a: int|
                    0 <= a < 4096 && !(0x200 <= a < 0x200 + i) ==> self.memory[a] == old(
                        self,
                    ).memory[a],
            decreases len - i,
        {
            self.memory[i + PROGRAM_START] = program[i];
            i += 1;
        }
        assert(self@ =~= old(self)@.with_program(program@));
        Ok(())
    }

    /// Lets one frame pass: each timer that is not at zero goes down by one.
    /// Returns whether a beep is due: the sound timer went from 1 to 0.
    pub fn update_timers(&mut self) -> (beep: bool)
        ensures
            final(self)@ == old(self)@.tick(),
            beep == old(self)@.beeps(),
    {
        if self.delay_timer > 0 {
            self.delay_timer -= 1;
        }
        let mut beep: bool = false;
        if self.sound_timer > 0 {
            beep = self.sound_timer == 1;
            self.sound_timer -= 1;
        }
        beep
    }
}

} // verus!
