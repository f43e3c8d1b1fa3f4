use vstd::prelude::*;

verus! {

/// Number of framebuffer cells: 64 columns by 32 rows, one cell per pixel.
pub const GFX_SIZE: usize = 2048;

/// Number of keys on the keypad.
pub const KEYPAD_SIZE: usize = 16;

/// Number of bytes of memory.
pub const MEMORY_SIZE: usize = 4096;

/// Number of bytes in the built-in font set.
pub const FONTSET_SIZE: usize = 80;

/// Number of framebuffer columns.
pub const WIDTH: usize = 64;

/// Number of general registers, `V0` to `VF`.
pub const REGISTER_COUNT: usize = 16;

/// Number of return addresses the stack holds.
pub const STACK_SIZE: usize = 16;

/// Address at which programs are loaded and start to run.
pub const PROGRAM_START: usize = 0x200;

/// The glyphs of the hexadecimal digits `0` to `F`, five bytes each.
pub const FONTSET: [u8; 80] = [
    0xF0, 0x90, 0x90, 0x90, 0xF0,
    0x20, 0x60, 0x20, 0x20, 0x70,
    0xF0, 0x10, 0xF0, 0x80, 0xF0,
    0xF0, 0x10, 0xF0, 0x10, 0xF0,
    0x90, 0x90, 0xF0, 0x10, 0x10,
    0xF0, 0x80, 0xF0, 0x10, 0xF0,
    0xF0, 0x80, 0xF0, 0x90, 0xF0,
    0xF0, 0x10, 0x20, 0x40, 0x40,
    0xF0, 0x90, 0xF0, 0x90, 0xF0,
    0xF0, 0x90, 0xF0, 0x10, 0xF0,
    0xF0, 0x90, 0xF0, 0x90, 0x90,
    0xE0, 0x90, 0xE0, 0x90, 0xE0,
    0xF0, 0x80, 0x80, 0x80, 0xF0,
    0xE0, 0x90, 0x90, 0x90, 0xE0,
    0xF0, 0x80, 0xF0, 0x80, 0xF0,
    0xF0, 0x80, 0xF0, 0x80, 0x80,
];

/// The state of the machine as mathematics: sequences for the arrays,
/// unbounded integers for the addresses.
#[verifier::ext_equal]
pub struct Machine {
    /// Set when the framebuffer changed; the renderer clears it.
    pub draw_flag: bool,
    /// The framebuffer, row by row; a lit cell holds 1.
    pub gfx: Seq<u8>,
    /// Which keys are held down.
    pub key: Seq<bool>,
    /// The instruction word executed last.
    pub opcode: u16,
    /// Memory: the font set from 0, the program from 0x200.
    pub memory: Seq<u8>,
    /// The registers `V0` to `VF`.
    pub v: Seq<u8>,
    /// The index register `I`.
    pub index: int,
    /// The program counter.
    pub pc: int,
    /// Counts down to zero, one per frame.
    pub delay_timer: u8,
    /// Counts down to zero, one per frame; a beep is due when it leaves 1.
    pub sound_timer: u8,
    /// The return addresses of the calls in progress.
    pub stack: Seq<int>,
    /// Number of calls in progress.
    pub sp: int,
}

impl Machine {
    /// The shape that every state of an executable machine has: arrays of the
    /// fixed sizes, addresses that fit a machine word.
    pub open spec fn wf(self) -> bool {
        &&& self.gfx.len() == GFX_SIZE
        &&& self.key.len() == KEYPAD_SIZE
        &&& self.memory.len() == MEMORY_SIZE
        &&& self.v.len() == REGISTER_COUNT
        &&& self.stack.len() == STACK_SIZE
        &&& 0 <= self.index <= usize::MAX
        &&& 0 <= self.pc <= usize::MAX
        &&& 0 <= self.sp <= usize::MAX
        &&& forall|i: int| 0 <= i < STACK_SIZE ==> 0 <= #[trigger] self.stack[i] <= usize::MAX
    }

    /// The register `Vx`.
    pub open spec fn reg(self, x: u8) -> u8 {
        self.v[x as int]
    }
}

} // verus!
