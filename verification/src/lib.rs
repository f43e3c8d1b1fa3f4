//! A CHIP-8 virtual machine.
//!
//! The interpreter is a state machine over a fixed memory, register, stack,
//! timer, keypad and framebuffer model. Every operation is total: what a
//! program or a host can get wrong comes back as a [`fault::Fault`], and the
//! machine is then left as it was.
//!
//! * [`bits`]: shifts and masks as arithmetic;
//! * [`fault`]: what the machine can refuse;
//! * [`model`]: the state of the machine as mathematics;
//! * [`decode`]: the instruction set and its encoding;
//! * [`sprite`]: which framebuffer cells a sprite toggles;
//! * [`semantics`]: what each instruction does to the state;
//! * [`machine`]: the executable machine, its font set, loader and timers;
//! * [`execute`]: the executable instructions and the cycle;
//! * [`frame`]: the cycles and the tick that make one frame;
//! * [`theorems`]: what follows for every program.

pub mod bits;
pub mod fault;
pub mod model;
pub mod decode;
pub mod sprite;
pub mod semantics;
pub mod machine;
pub mod execute;
pub mod frame;
pub mod theorems;

pub use decode::{decode, Instruction};
pub use fault::Fault;
pub use machine::Chip8;
pub use model::{
    FONTSET, FONTSET_SIZE, GFX_SIZE, KEYPAD_SIZE, MEMORY_SIZE, PROGRAM_START, REGISTER_COUNT,
    STACK_SIZE, WIDTH,
};
