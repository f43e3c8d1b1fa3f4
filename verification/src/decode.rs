use vstd::prelude::*;

verus! {

/// One instruction of the machine. `x` and `y` name registers, `nn` is a
/// byte, `addr` a twelve-bit address, `n` a number of sprite rows.
#[derive(Clone, Copy, Debug, PartialEq, Eq, Structural)]
pub enum Instruction {
    /// `00E0`: clear the framebuffer.
    ClearScreen,
    /// `00EE`: return from the call in progress.
    Return,
    /// `1nnn`: continue at `addr`.
    Jump { addr: u16 },
    /// `2nnn`: call the routine at `addr`.
    Call { addr: u16 },
    /// `3xnn`: skip the next instruction if `Vx == nn`.
    SkipEqImm { x: u8, nn: u8 },
    /// `4xnn`: skip the next instruction if `Vx != nn`.
    SkipNeImm { x: u8, nn: u8 },
    /// `5xy0`: skip the next instruction if `Vx == Vy`.
    SkipEqReg { x: u8, y: u8 },
    /// `6xnn`: `Vx = nn`.
    LoadImm { x: u8, nn: u8 },
    /// `7xnn`: `Vx = Vx + nn` modulo 256; no flag.
    AddImm { x: u8, nn: u8 },
    /// `8xy0`: `Vx = Vy`.
    Move { x: u8, y: u8 },
    /// `8xy1`: `Vx = Vx | Vy`.
    Or { x: u8, y: u8 },
    /// `8xy2`: `Vx = Vx & Vy`.
    And { x: u8, y: u8 },
    /// `8xy3`: `Vx = Vx ^ Vy`.
    Xor { x: u8, y: u8 },
    /// `8xy4`: `Vx = Vx + Vy` modulo 256, then `VF` = carry.
    AddReg { x: u8, y: u8 },
    /// `8xy5`: `Vx = Vx - Vy` modulo 256, then `VF` = no borrow.
    SubReg { x: u8, y: u8 },
    /// `8xy6`: `VF` = lowest bit of `Vx`, then `Vx` is halved. `y` is not used.
    ShiftRight { x: u8, y: u8 },
    /// `8xy7`: `Vx = Vy - Vx` modulo 256, then `VF` = no borrow.
    SubFrom { x: u8, y: u8 },
    /// `8xyE`: `VF` = highest bit of `Vx`, then `Vx` is doubled modulo 256.
    /// `y` is not used.
    ShiftLeft { x: u8, y: u8 },
    /// `9xy0`: skip the next instruction if `Vx != Vy`.
    SkipNeReg { x: u8, y: u8 },
    /// `Annn`: `I = addr`.
    LoadIndex { addr: u16 },
    /// `Bnnn`: continue at `addr + V0`.
    JumpOffset { addr: u16 },
    /// `Cxnn`: `Vx` = a random byte, masked by `nn`.
    Random { x: u8, nn: u8 },
    /// `Dxyn`: draw the `n` rows of the sprite at `I` at column `Vx`, row `Vy`.
    Draw { x: u8, y: u8, n: u8 },
    /// `Ex9E`: skip the next instruction if key `Vx` is down.
    SkipKey { x: u8 },
    /// `ExA1`: skip the next instruction if key `Vx` is up.
    SkipNoKey { x: u8 },
    /// `Fx07`: `Vx` = delay timer.
    ReadDelay { x: u8 },
    /// `Fx0A`: stay on this instruction until a key is down, then `Vx` = that key.
    WaitKey { x: u8 },
    /// `Fx15`: delay timer = `Vx`.
    SetDelay { x: u8 },
    /// `Fx18`: sound timer = `Vx`.
    SetSound { x: u8 },
    /// `Fx1E`: `I = I + Vx`, then `VF` = whether `I` left the twelve-bit range.
    AddIndex { x: u8 },
    /// `Fx29`: `I` = address of the glyph of digit `Vx`.
    FontAddr { x: u8 },
    /// `Fx33`: the three decimal digits of `Vx` go to memory at `I`.
    StoreBcd { x: u8 },
    /// `Fx55`: `V0` to `Vx` go to memory at `I`.
    StoreRegs { x: u8 },
    /// `Fx65`: `V0` to `Vx` come from memory at `I`.
    LoadRegs { x: u8 },
}

/// A register number.
pub open spec fn is_reg(x: u8) -> bool {
    x < 16
}

/// A twelve-bit address.
pub open spec fn is_addr(addr: u16) -> bool {
    addr < 0x1000
}

impl Instruction {
    /// The operands are in range: registers below 16, addresses below 4096,
    /// at most 15 sprite rows.
    pub open spec fn wf(self) -> bool {
        match self {
            Instruction::ClearScreen | Instruction::Return => true,
            Instruction::Jump { addr }
            | Instruction::Call { addr }
            | Instruction::LoadIndex { addr }
            | Instruction::JumpOffset { addr } => is_addr(addr),
            Instruction::SkipEqImm { x, nn }
            | Instruction::SkipNeImm { x, nn }
            | Instruction::LoadImm { x, nn }
            | Instruction::AddImm { x, nn }
            | Instruction::Random { x, nn } => is_reg(x),
            Instruction::SkipEqReg { x, y }
            | Instruction::Move { x, y }
            | Instruction::Or { x, y }
            | Instruction::And { x, y }
            | Instruction::Xor { x, y }
            | Instruction::AddReg { x, y }
            | Instruction::SubReg { x, y }
            | Instruction::ShiftRight { x, y }
            | Instruction::SubFrom { x, y }
            | Instruction::ShiftLeft { x, y }
            | Instruction::SkipNeReg { x, y } => is_reg(x) && is_reg(y),
            Instruction::Draw { x, y, n } => is_reg(x) && is_reg(y) && n < 16,
            Instruction::SkipKey { x }
            | Instruction::SkipNoKey { x }
            | Instruction::ReadDelay { x }
            | Instruction::WaitKey { x }
            | Instruction::SetDelay { x }
            | Instruction::SetSound { x }
            | Instruction::AddIndex { x }
            | Instruction::FontAddr { x }
            | Instruction::StoreBcd { x }
            | Instruction::StoreRegs { x }
            | Instruction::LoadRegs { x } => is_reg(x),
        }
    }

    /// The instruction word, by the encoding table of the machine: the
    /// family in the highest hexadecimal digit, then the operands.
    pub open spec fn encode(self) -> int {
        match self {
            Instruction::ClearScreen => 0x00E0,
            Instruction::Return => 0x00EE,
            Instruction::Jump { addr } => 0x1000 + addr,
            Instruction::Call { addr } => 0x2000 + addr,
            Instruction::SkipEqImm { x, nn } => 0x3000 + x * 0x100 + nn,
            Instruction::SkipNeImm { x, nn } => 0x4000 + x * 0x100 + nn,
            Instruction::SkipEqReg { x, y } => 0x5000 + x * 0x100 + y * 0x10,
            Instruction::LoadImm { x, nn } => 0x6000 + x * 0x100 + nn,
            Instruction::AddImm { x, nn } => 0x7000 + x * 0x100 + nn,
            Instruction::Move { x, y } => 0x8000 + x * 0x100 + y * 0x10,
            Instruction::Or { x, y } => 0x8001 + x * 0x100 + y * 0x10,
            Instruction::And { x, y } => 0x8002 + x * 0x100 + y * 0x10,
            Instruction::Xor { x, y } => 0x8003 + x * 0x100 + y * 0x10,
            Instruction::AddReg { x, y } => 0x8004 + x * 0x100 + y * 0x10,
            Instruction::SubReg { x, y } => 0x8005 + x * 0x100 + y * 0x10,
            Instruction::ShiftRight { x, y } => 0x8006 + x * 0x100 + y * 0x10,
            Instruction::SubFrom { x, y } => 0x8007 + x * 0x100 + y * 0x10,
            Instruction::ShiftLeft { x, y } => 0x800E + x * 0x100 + y * 0x10,
            Instruction::SkipNeReg { x, y } => 0x9000 + x * 0x100 + y * 0x10,
            Instruction::LoadIndex { addr } => 0xA000 + addr,
            Instruction::JumpOffset { addr } => 0xB000 + addr,
            Instruction::Random { x, nn } => 0xC000 + x * 0x100 + nn,
            Instruction::Draw { x, y, n } => 0xD000 + x * 0x100 + y * 0x10 + n,
            Instruction::SkipKey { x } => 0xE09E + x * 0x100,
            Instruction::SkipNoKey { x } => 0xE0A1 + x * 0x100,
            Instruction::ReadDelay { x } => 0xF007 + x * 0x100,
            Instruction::WaitKey { x } => 0xF00A + x * 0x100,
            Instruction::SetDelay { x } => 0xF015 + x * 0x100,
            Instruction::SetSound { x } => 0xF018 + x * 0x100,
            Instruction::AddIndex { x } => 0xF01E + x * 0x100,
            Instruction::FontAddr { x } => 0xF029 + x * 0x100,
            Instruction::StoreBcd { x } => 0xF033 + x * 0x100,
            Instruction::StoreRegs { x } => 0xF055 + x * 0x100,
            Instruction::LoadRegs { x } => 0xF065 + x * 0x100,
        }
    }
}

/// The highest hexadecimal digit of an instruction word: its family.
pub open spec fn family_of(opcode: u16) -> u8 {
    (opcode as int / 0x1000) as u8
}

/// The operand `x`: the second hexadecimal digit.
pub open spec fn x_of(opcode: u16) -> u8 {
    ((opcode as int / 0x100) % 0x10) as u8
}

/// The operand `y`: the third hexadecimal digit.
pub open spec fn y_of(opcode: u16) -> u8 {
    ((opcode as int / 0x10) % 0x10) as u8
}

/// The operand `n`: the lowest hexadecimal digit.
pub open spec fn n_of(opcode: u16) -> u8 {
    (opcode as int % 0x10) as u8
}

/// The operand `nn`: the low byte.
pub open spec fn nn_of(opcode: u16) -> u8 {
    (opcode as int % 0x100) as u8
}

/// The operand `nnn`: the low twelve bits.
pub open spec fn addr_of(opcode: u16) -> u16 {
    (opcode as int % 0x1000) as u16
}

/// The instruction that a word stands for, if any.
pub open spec fn spec_decode(opcode: u16) -> Option<Instruction> {
    let x = x_of(opcode);
    let y = y_of(opcode);
    let n = n_of(opcode);
    let nn = nn_of(opcode);
    let addr = addr_of(opcode);
    match family_of(opcode) {
        0x0 => if opcode == 0x00E0 {
            Some(Instruction::ClearScreen)
        } else if opcode == 0x00EE {
            Some(Instruction::Return)
        } else {
            None
        },
        0x1 => Some(Instruction::Jump { addr }),
        0x2 => Some(Instruction::Call { addr }),
        0x3 => Some(Instruction::SkipEqImm { x, nn }),
        0x4 => Some(Instruction::SkipNeImm { x, nn }),
        0x5 => if n == 0 {
            Some(Instruction::SkipEqReg { x, y })
        } else {
            None
        },
        0x6 => Some(Instruction::LoadImm { x, nn }),
        0x7 => Some(Instruction::AddImm { x, nn }),
        0x8 => match n {
            0x0 => Some(Instruction::Move { x, y }),
            0x1 => Some(Instruction::Or { x, y }),
            0x2 => Some(Instruction::And { x, y }),
            0x3 => Some(Instruction::Xor { x, y }),
            0x4 => Some(Instruction::AddReg { x, y }),
            0x5 => Some(Instruction::SubReg { x, y }),
            0x6 => Some(Instruction::ShiftRight { x, y }),
            0x7 => Some(Instruction::SubFrom { x, y }),
            0xE => Some(Instruction::ShiftLeft { x, y }),
            _ => None,
        },
        0x9 => if n == 0 {
            Some(Instruction::SkipNeReg { x, y })
        } else {
            None
        },
        0xA => Some(Instruction::LoadIndex { addr }),
        0xB => Some(Instruction::JumpOffset { addr }),
        0xC => Some(Instruction::Random { x, nn }),
        0xD => Some(Instruction::Draw { x, y, n }),
        0xE => match nn {
            0x9E => Some(Instruction::SkipKey { x }),
            0xA1 => Some(Instruction::SkipNoKey { x }),
            _ => None,
        },
        0xF => match nn {
            0x07 => Some(Instruction::ReadDelay { x }),
            0x0A => Some(Instruction::WaitKey { x }),
            0x15 => Some(Instruction::SetDelay { x }),
            0x18 => Some(Instruction::SetSound { x }),
            0x1E => Some(Instruction::AddIndex { x }),
            0x29 => Some(Instruction::FontAddr { x }),
            0x33 => Some(Instruction::StoreBcd { x }),
            0x55 => Some(Instruction::StoreRegs { x }),
            0x65 => Some(Instruction::LoadRegs { x }),
            _ => None,
        },
        _ => None,
    }
}

/// Masks and shifts cut an instruction word into its hexadecimal digits.
pub proof fn lemma_fields_by_masks(opcode: u16)
    by (bit_vector)
    ensures
        opcode >> 12 == opcode / 0x1000,
        (opcode & 0x0F00) >> 8 == (opcode / 0x100) % 0x10,
        (opcode & 0x00F0) >> 4 == (opcode / 0x10) % 0x10,
        opcode & 0x000F == opcode % 0x10,
        opcode & 0x00FF == opcode % 0x100,
        opcode & 0x0FFF == opcode % 0x1000,
        opcode >> 12 < 0x10,
{
}

/// Decodes an instruction word. `None` for a word that is no instruction.
pub fn decode(opcode: u16) -> (r: Option<Instruction>)
    ensures
        r == spec_decode(opcode),
{
    proof {
        lemma_fields_by_masks(opcode);
    }
    let family: u16 = opcode >> 12;
    let x: u8 = ((opcode & 0x0F00) >> 8) as u8;
    let y: u8 = ((opcode & 0x00F0) >> 4) as u8;
    let n: u8 = (opcode & 0x000F) as u8;
    let nn: u8 = (opcode & 0x00FF) as u8;
    let addr: u16 = opcode & 0x0FFF;
    match family {
        0x0 => match opcode {
            0x00E0 => Some(Instruction::ClearScreen),
            0x00EE => Some(Instruction::Return),
            _ => None,
        },
        0x1 => Some(Instruction::Jump { addr }),
        0x2 => Some(Instruction::Call { addr }),
        0x3 => Some(Instruction::SkipEqImm { x, nn }),
        0x4 => Some(Instruction::SkipNeImm { x, nn }),
        0x5 => if n == 0 {
            Some(Instruction::SkipEqReg { x, y })
        } else {
            None
        },
        0x6 => Some(Instruction::LoadImm { x, nn }),
        0x7 => Some(Instruction::AddImm { x, nn }),
        0x8 => match n {
            0x0 => Some(Instruction::Move { x, y }),
            0x1 => Some(Instruction::Or { x, y }),
            0x2 => Some(Instruction::And { x, y }),
            0x3 => Some(Instruction::Xor { x, y }),
            0x4 => Some(Instruction::AddReg { x, y }),
            0x5 => Some(Instruction::SubReg { x, y }),
            0x6 => Some(Instruction::ShiftRight { x, y }),
            0x7 => Some(Instruction::SubFrom { x, y }),
            0xE => Some(Instruction::ShiftLeft { x, y }),
            _ => None,
        },
        0x9 => if n == 0 {
            Some(Instruction::SkipNeReg { x, y })
        } else {
            None
        },
        0xA => Some(Instruction::LoadIndex { addr }),
        0xB => Some(Instruction::JumpOffset { addr }),
        0xC => Some(Instruction::Random { x, nn }),
        0xD => Some(Instruction::Draw { x, y, n }),
        0xE => match nn {
            0x9E => Some(Instruction::SkipKey { x }),
            0xA1 => Some(Instruction::SkipNoKey { x }),
            _ => None,
        },
        0xF => match nn {
            0x07 => Some(Instruction::ReadDelay { x }),
            0x0A => Some(Instruction::WaitKey { x }),
            0x15 => Some(Instruction::SetDelay { x }),
            0x18 => Some(Instruction::SetSound { x }),
            0x1E => Some(Instruction::AddIndex { x }),
            0x29 => Some(Instruction::FontAddr { x }),
            0x33 => Some(Instruction::StoreBcd { x }),
            0x55 => Some(Instruction::StoreRegs { x }),
            0x65 => Some(Instruction::LoadRegs { x }),
            _ => None,
        },
        _ => None,
    }
}

/// A word is the sum of its four hexadecimal digits, each at its place.
pub proof fn lemma_word_is_its_digits(opcode: u16)
    ensures
        opcode == family_of(opcode) * 0x1000 + x_of(opcode) * 0x100 + y_of(opcode) * 0x10 + n_of(
            opcode,
        ),
        nn_of(opcode) == y_of(opcode) * 0x10 + n_of(opcode),
        addr_of(opcode) == x_of(opcode) * 0x100 + nn_of(opcode),
        family_of(opcode) < 0x10,
        x_of(opcode) < 0x10,
        y_of(opcode) < 0x10,
        n_of(opcode) < 0x10,
{
}

/// The digits of a word made of a family, a register and a byte.
proof fn lemma_fields_of_xnn(family: u16, x: u16, nn: u16)
    by (bit_vector)
    requires
        family < 0x10,
        x < 0x10,
        nn < 0x100,
    ensures
        family * 0x1000 + x * 0x100 + nn < 0x10000,
        (family * 0x1000 + x * 0x100 + nn) / 0x1000 == family,
        ((family * 0x1000 + x * 0x100 + nn) / 0x100) % 0x10 == x,
        (family * 0x1000 + x * 0x100 + nn) % 0x100 == nn,
{
}

/// The digits of a word made of a family, two registers and a digit.
proof fn lemma_fields_of_xyn(family: u16, x: u16, y: u16, n: u16)
    by (bit_vector)
    requires
        family < 0x10,
        x < 0x10,
        y < 0x10,
        n < 0x10,
    ensures
        family * 0x1000 + x * 0x100 + y * 0x10 + n < 0x10000,
        (family * 0x1000 + x * 0x100 + y * 0x10 + n) / 0x1000 == family,
        ((family * 0x1000 + x * 0x100 + y * 0x10 + n) / 0x100) % 0x10 == x,
        ((family * 0x1000 + x * 0x100 + y * 0x10 + n) / 0x10) % 0x10 == y,
        (family * 0x1000 + x * 0x100 + y * 0x10 + n) % 0x10 == n,
{
}

/// The digits of a word made of a family and an address.
proof fn lemma_fields_of_addr(family: u16, addr: u16)
    by (bit_vector)
    requires
        family < 0x10,
        addr < 0x1000,
    ensures
        family * 0x1000 + addr < 0x10000,
        (family * 0x1000 + addr) / 0x1000 == family,
        (family * 0x1000 + addr) % 0x1000 == addr,
{
}

/// Whatever a word decodes to has its operands in range and encodes back to
/// that word.
pub proof fn lemma_decode_then_encode(opcode: u16)
    ensures
        spec_decode(opcode) matches Some(i) ==> i.wf() && i.encode() == opcode,
{
    lemma_word_is_its_digits(opcode);
}

/// Every instruction with operands in range is what its encoding decodes to.
pub proof fn lemma_encode_then_decode(i: Instruction)
    requires
        i.wf(),
    ensures
        0 <= i.encode() <= u16::MAX,
        spec_decode(i.encode() as u16) == Some(i),
{
    match i {
        Instruction::ClearScreen | Instruction::Return => {},
        Instruction::Jump { addr } => lemma_fields_of_addr(0x1, addr),
        Instruction::Call { addr } => lemma_fields_of_addr(0x2, addr),
        Instruction::SkipEqImm { x, nn } => lemma_fields_of_xnn(0x3, x as u16, nn as u16),
        Instruction::SkipNeImm { x, nn } => lemma_fields_of_xnn(0x4, x as u16, nn as u16),
        Instruction::SkipEqReg { x, y } => lemma_fields_of_xyn(0x5, x as u16, y as u16, 0x0),
        Instruction::LoadImm { x, nn } => lemma_fields_of_xnn(0x6, x as u16, nn as u16),
        Instruction::AddImm { x, nn } => lemma_fields_of_xnn(0x7, x as u16, nn as u16),
        Instruction::Move { x, y } => lemma_fields_of_xyn(0x8, x as u16, y as u16, 0x0),
        Instruction::Or { x, y } => lemma_fields_of_xyn(0x8, x as u16, y as u16, 0x1),
        Instruction::And { x, y } => lemma_fields_of_xyn(0x8, x as u16, y as u16, 0x2),
        Instruction::Xor { x, y } => lemma_fields_of_xyn(0x8, x as u16, y as u16, 0x3),
        Instruction::AddReg { x, y } => lemma_fields_of_xyn(0x8, x as u16, y as u16, 0x4),
        Instruction::SubReg { x, y } => lemma_fields_of_xyn(0x8, x as u16, y as u16, 0x5),
        Instruction::ShiftRight { x, y } => lemma_fields_of_xyn(0x8, x as u16, y as u16, 0x6),
        Instruction::SubFrom { x, y } => lemma_fields_of_xyn(0x8, x as u16, y as u16, 0x7),
        Instruction::ShiftLeft { x, y } => lemma_fields_of_xyn(0x8, x as u16, y as u16, 0xE),
        Instruction::SkipNeReg { x, y } => lemma_fields_of_xyn(0x9, x as u16, y as u16, 0x0),
        Instruction::LoadIndex { addr } => lemma_fields_of_addr(0xA, addr),
        Instruction::JumpOffset { addr } => lemma_fields_of_addr(0xB, addr),
        Instruction::Random { x, nn } => lemma_fields_of_xnn(0xC, x as u16, nn as u16),
        Instruction::Draw { x, y, n } => lemma_fields_of_xyn(0xD, x as u16, y as u16, n as u16),
        Instruction::SkipKey { x } => lemma_fields_of_xnn(0xE, x as u16, 0x9E),
        Instruction::SkipNoKey { x } => lemma_fields_of_xnn(0xE, x as u16, 0xA1),
        Instruction::ReadDelay { x } => lemma_fields_of_xnn(0xF, x as u16, 0x07),
        Instruction::WaitKey { x } => lemma_fields_of_xnn(0xF, x as u16, 0x0A),
        Instruction::SetDelay { x } => lemma_fields_of_xnn(0xF, x as u16, 0x15),
        Instruction::SetSound { x } => lemma_fields_of_xnn(0xF, x as u16, 0x18),
        Instruction::AddIndex { x } => lemma_fields_of_xnn(0xF, x as u16, 0x1E),
        Instruction::FontAddr { x } => lemma_fields_of_xnn(0xF, x as u16, 0x29),
        Instruction::StoreBcd { x } => lemma_fields_of_xnn(0xF, x as u16, 0x33),
        Instruction::StoreRegs { x } => lemma_fields_of_xnn(0xF, x as u16, 0x55),
        Instruction::LoadRegs { x } => lemma_fields_of_xnn(0xF, x as u16, 0x65),
    }
}

/// A word is no instruction exactly if it is the encoding of none.
pub proof fn lemma_decode_none(opcode: u16)
    ensures
        spec_decode(opcode) is None <==> forall|i: Instruction|
            i.wf() ==> #[trigger] i.encode() != opcode,
{
    lemma_decode_then_encode(opcode);
    assert forall|i: Instruction| i.wf() && #[trigger] i.encode() == opcode implies spec_decode(
        opcode,
    ) == Some(i) by {
        lemma_encode_then_decode(i);
    }
}

} // verus!
