use vstd::prelude::*;

verus! {

/// Why the machine refused an operation. A refused operation changes nothing.
#[derive(Clone, Copy, Debug, PartialEq, Eq, Structural)]
pub enum Fault {
    /// A program of `len` bytes does not fit into the memory above the load address.
    Capacity { len: usize },
    /// The word `opcode`, found at `pc`, is not an instruction.
    Decode { opcode: u16, pc: usize },
    /// The program counter `pc` does not address two bytes of memory.
    ProgramCounter { pc: usize },
    /// A call with all sixteen stack slots in use, or a return with the stack
    /// pointer beyond the stack.
    StackOverflow,
    /// A return with no call to return from.
    StackUnderflow,
    /// An instruction reads or writes memory from `index` on, and some of
    /// that lies outside memory.
    Memory { index: usize },
    /// A key instruction asks for key `key`, and the keypad has only sixteen.
    Key { key: u8 },
    /// An address grew beyond what a machine word holds.
    AddressOverflow,
}

} // verus!
