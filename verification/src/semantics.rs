use crate::decode::{spec_decode, Instruction};
use crate::fault::Fault;
use crate::model::{Machine, FONTSET};
use crate::sprite::sprite_at;
use vstd::prelude::*;

verus! {

/// An integer brought into a byte: its remainder modulo 256.
pub open spec fn wrap(i: int) -> u8 {
    (i % 256) as u8
}

/// A condition as a flag register holds it: 1 if it is met, else 0.
pub open spec fn flag(b: bool) -> u8 {
    if b {
        1
    } else {
        0
    }
}

/// The greatest key below `below` that is down, or -1 if none is.
pub open spec fn highest_key(key: Seq<bool>, below: int) -> int
    decreases below,
{
    if below <= 0 {
        -1
    } else if key[below - 1] {
        below - 1
    } else {
        highest_key(key, below - 1)
    }
}

impl Machine {
    /// A machine with everything at zero and the program counter at the
    /// start of the program area.
    pub open spec fn initial() -> Machine {
        Machine {
            draw_flag: false,
            gfx: Seq::new(2048, |i: int| 0u8),
            key: Seq::new(16, |i: int| false),
            opcode: 0,
            memory: Seq::new(4096, |i: int| 0u8),
            v: Seq::new(16, |i: int| 0u8),
            index: 0,
            pc: 0x200,
            delay_timer: 0,
            sound_timer: 0,
            stack: Seq::new(16, |i: int| 0int),
            sp: 0,
        }
    }

    /// The machine with the font set at the bottom of memory.
    pub open spec fn with_font(self) -> Machine {
        Machine {
            memory: Seq::new(
                4096,
                |a: int|
                    if 0 <= a < 80 {
                        FONTSET[a]
                    } else {
                        self.memory[a]
                    },
            ),
            ..self
        }
    }

    /// The machine with `program` in memory from 0x200 on.
    pub open spec fn with_program(self, program: Seq<u8>) -> Machine {
        Machine {
            memory: Seq::new(
                4096,
                |a: int|
                    if 0x200 <= a < 0x200 + program.len() {
                        program[a - 0x200]
                    } else {
                        self.memory[a]
                    },
            ),
            ..self
        }
    }

    /// What loading `program` makes of the machine: it is refused if it is
    /// longer than the memory from 0x200 on.
    pub open spec fn load(self, program: Seq<u8>) -> Result<Machine, Fault> {
        if program.len() > 4096 - 0x200 {
            Err(Fault::Capacity { len: program.len() as usize })
        } else {
            Ok(self.with_program(program))
        }
    }

    /// The machine one frame later: each timer that is not at zero is one less.
    pub open spec fn tick(self) -> Machine {
        Machine {
            delay_timer: if self.delay_timer > 0 {
                (self.delay_timer - 1) as u8
            } else {
                0
            },
            sound_timer: if self.sound_timer > 0 {
                (self.sound_timer - 1) as u8
            } else {
                0
            },
            ..self
        }
    }

    /// Whether the next tick ends a sound: the sound timer goes from 1 to 0.
    pub open spec fn beeps(self) -> bool {
        self.sound_timer == 1
    }

    /// The program counter moved on by `by` bytes.
    pub open spec fn advance(self, by: int) -> Machine {
        Machine { pc: self.pc + by, ..self }
    }

    /// The program counter behind the next instruction if `cond` holds, else
    /// at the next instruction.
    pub open spec fn skip_if(self, cond: bool) -> Machine {
        self.advance(
            if cond {
                4
            } else {
                2
            },
        )
    }

    /// `Vx = value`.
    pub open spec fn set_reg(self, x: u8, value: u8) -> Machine {
        Machine { v: self.v.update(x as int, value), ..self }
    }

    /// `VF = value`.
    pub open spec fn set_flag(self, value: u8) -> Machine {
        self.set_reg(15, value)
    }

    /// `00E0`: every framebuffer cell is dark, and the draw flag is set.
    pub open spec fn clear_screen(self) -> Machine {
        Machine { gfx: Seq::new(2048, |c: int| 0u8), draw_flag: true, ..self }.advance(2)
    }

    /// `00EE`: the program continues behind the call whose address is on top
    /// of the stack. Refused with an empty stack, with a stack pointer beyond
    /// the stack, and with a return address that has no successor.
    pub open spec fn ret(self) -> Result<Machine, Fault> {
        if self.sp <= 0 {
            Err(Fault::StackUnderflow)
        } else if self.sp > 16 {
            Err(Fault::StackOverflow)
        } else if self.stack[self.sp - 1] + 2 > usize::MAX {
            Err(Fault::AddressOverflow)
        } else {
            Ok(Machine { sp: self.sp - 1, pc: self.stack[self.sp - 1] + 2, ..self })
        }
    }

    /// `2nnn`: the address of the call goes onto the stack, and the program
    /// continues at `addr`. Refused with a full stack.
    pub open spec fn call(self, addr: u16) -> Result<Machine, Fault> {
        if self.sp >= 16 {
            Err(Fault::StackOverflow)
        } else {
            Ok(
                Machine {
                    stack: self.stack.update(self.sp, self.pc),
                    sp: self.sp + 1,
                    pc: addr as int,
                    ..self
                },
            )
        }
    }

    /// `Dxyn`: the sprite of `n` rows at `I` is xor-ed into the framebuffer
    /// at column `Vx`, row `Vy`, as these registers are before the
    /// instruction; then `VF` tells whether a lit cell was hit, and the draw
    /// flag is set. Refused if the sprite does not lie in memory.
    pub open spec fn draw(self, x: u8, y: u8, n: u8) -> Result<Machine, Fault> {
        if n > 0 && self.index + n > 4096 {
            Err(Fault::Memory { index: self.index as usize })
        } else {
            let sprite = sprite_at(self.memory, self.index, n as int, self.reg(x), self.reg(y));
            Ok(
                Machine { gfx: sprite.drawn(self.gfx), draw_flag: true, ..self }.set_flag(
                    flag(sprite.collides(self.gfx)),
                ).advance(2),
            )
        }
    }

    /// `Ex9E` and `ExA1`: skips if key `Vx` is down, or up, as `down` asks.
    /// Refused if `Vx` is no key.
    pub open spec fn skip_key(self, x: u8, down: bool) -> Result<Machine, Fault> {
        if self.reg(x) >= 16 {
            Err(Fault::Key { key: self.reg(x) })
        } else {
            Ok(self.skip_if(self.key[self.reg(x) as int] == down))
        }
    }

    /// `Fx0A`: with no key down nothing changes, so that the instruction is
    /// met again; else `Vx` is the highest key that is down.
    pub open spec fn wait_key(self, x: u8) -> Machine {
        let k = highest_key(self.key, 16);
        if k < 0 {
            self
        } else {
            self.set_reg(x, k as u8).advance(2)
        }
    }

    /// `Fx1E`: `I = I + Vx`, then `VF` tells whether `I` is beyond 0xFFF.
    /// Refused if `I` would not fit a machine word.
    pub open spec fn add_index(self, x: u8) -> Result<Machine, Fault> {
        let sum = self.index + self.reg(x);
        if sum > usize::MAX {
            Err(Fault::AddressOverflow)
        } else {
            Ok(Machine { index: sum, ..self }.set_flag(flag(sum > 0xFFF)).advance(2))
        }
    }

    /// `Fx33`: the hundreds, tens and units of `Vx` go to memory at `I`,
    /// `I + 1` and `I + 2`. Refused if these do not lie in memory.
    pub open spec fn store_bcd(self, x: u8) -> Result<Machine, Fault> {
        if self.index + 3 > 4096 {
            Err(Fault::Memory { index: self.index as usize })
        } else {
            let value = self.reg(x);
            Ok(
                Machine {
                    memory: self.memory.update(self.index, (value / 100) as u8).update(
                        self.index + 1,
                        ((value / 10) % 10) as u8,
                    ).update(self.index + 2, (value % 10) as u8),
                    ..self
                }.advance(2),
            )
        }
    }

    /// `Fx55`: `V0` to `Vx` go to memory at `I` to `I + x`. Refused if these
    /// do not lie in memory.
    pub open spec fn store_regs(self, x: u8) -> Result<Machine, Fault> {
        if self.index + x + 1 > 4096 {
            Err(Fault::Memory { index: self.index as usize })
        } else {
            Ok(
                Machine {
                    memory: Seq::new(
                        4096,
                        |a: int|
                            if self.index <= a <= self.index + x {
                                self.v[a - self.index]
                            } else {
                                self.memory[a]
                            },
                    ),
                    ..self
                }.advance(2),
            )
        }
    }

    /// `Fx65`: `V0` to `Vx` come from memory at `I` to `I + x`. Refused if
    /// these do not lie in memory.
    pub open spec fn load_regs(self, x: u8) -> Result<Machine, Fault> {
        if self.index + x + 1 > 4096 {
            Err(Fault::Memory { index: self.index as usize })
        } else {
            Ok(
                Machine {
                    v: Seq::new(
                        16,
                        |r: int|
                            if 0 <= r <= x {
                                self.memory[self.index + r]
                            } else {
                                self.v[r]
                            },
                    ),
                    ..self
                }.advance(2),
            )
        }
    }

    /// What an instruction makes of the machine, given the random byte that
    /// `Cxnn` is to use. A refused instruction gives the fault.
    pub open spec fn run(self, i: Instruction, random: u8) -> Result<Machine, Fault> {
        match i {
            Instruction::ClearScreen => Ok(self.clear_screen()),
            Instruction::Return => self.ret(),
            Instruction::Jump { addr } => Ok(Machine { pc: addr as int, ..self }),
            Instruction::Call { addr } => self.call(addr),
            Instruction::SkipEqImm { x, nn } => Ok(self.skip_if(self.reg(x) == nn)),
            Instruction::SkipNeImm { x, nn } => Ok(self.skip_if(self.reg(x) != nn)),
            Instruction::SkipEqReg { x, y } => Ok(self.skip_if(self.reg(x) == self.reg(y))),
            Instruction::LoadImm { x, nn } => Ok(self.set_reg(x, nn).advance(2)),
            Instruction::AddImm { x, nn } => Ok(
                self.set_reg(x, wrap(self.reg(x) + nn)).advance(2),
            ),
            Instruction::Move { x, y } => Ok(self.set_reg(x, self.reg(y)).advance(2)),
            Instruction::Or { x, y } => Ok(self.set_reg(x, self.reg(x) | self.reg(y)).advance(2)),
            Instruction::And { x, y } => Ok(self.set_reg(x, self.reg(x) & self.reg(y)).advance(2)),
            Instruction::Xor { x, y } => Ok(self.set_reg(x, self.reg(x) ^ self.reg(y)).advance(2)),
            Instruction::AddReg { x, y } => Ok(
                self.set_reg(x, wrap(self.reg(x) + self.reg(y))).set_flag(
                    flag(self.reg(x) + self.reg(y) > 255),
                ).advance(2),
            ),
            Instruction::SubReg { x, y } => Ok(
                self.set_reg(x, wrap(self.reg(x) - self.reg(y))).set_flag(
                    flag(self.reg(x) >= self.reg(y)),
                ).advance(2),
            ),
            Instruction::ShiftRight { x, y } => {
                let flagged = self.set_flag((self.reg(x) % 2) as u8);
                Ok(flagged.set_reg(x, (flagged.reg(x) / 2) as u8).advance(2))
            },
            Instruction::SubFrom { x, y } => Ok(
                self.set_reg(x, wrap(self.reg(y) - self.reg(x))).set_flag(
                    flag(self.reg(y) >= self.reg(x)),
                ).advance(2),
            ),
            Instruction::ShiftLeft { x, y } => {
                let flagged = self.set_flag((self.reg(x) / 128) as u8);
                Ok(flagged.set_reg(x, wrap(flagged.reg(x) * 2)).advance(2))
            },
            Instruction::SkipNeReg { x, y } => Ok(self.skip_if(self.reg(x) != self.reg(y))),
            Instruction::LoadIndex { addr } => Ok(
                Machine { index: addr as int, ..self }.advance(2),
            ),
            Instruction::JumpOffset { addr } => Ok(Machine { pc: addr + self.reg(0), ..self }),
            Instruction::Random { x, nn } => Ok(self.set_reg(x, random & nn).advance(2)),
            Instruction::Draw { x, y, n } => self.draw(x, y, n),
            Instruction::SkipKey { x } => self.skip_key(x, true),
            Instruction::SkipNoKey { x } => self.skip_key(x, false),
            Instruction::ReadDelay { x } => Ok(self.set_reg(x, self.delay_timer).advance(2)),
            Instruction::WaitKey { x } => Ok(self.wait_key(x)),
            Instruction::SetDelay { x } => Ok(
                Machine { delay_timer: self.reg(x), ..self }.advance(2),
            ),
            Instruction::SetSound { x } => Ok(
                Machine { sound_timer: self.reg(x), ..self }.advance(2),
            ),
            Instruction::AddIndex { x } => self.add_index(x),
            Instruction::FontAddr { x } => Ok(
                Machine { index: self.reg(x) * 5, ..self }.advance(2),
            ),
            Instruction::StoreBcd { x } => self.store_bcd(x),
            Instruction::StoreRegs { x } => self.store_regs(x),
            Instruction::LoadRegs { x } => self.load_regs(x),
        }
    }

    /// Whether the program counter addresses two bytes of memory.
    pub open spec fn can_fetch(self) -> bool {
        0 <= self.pc && self.pc + 1 < 4096
    }

    /// The word at the program counter, high byte first.
    pub open spec fn fetch(self) -> u16 {
        (self.memory[self.pc] as int * 0x100 + self.memory[self.pc + 1] as int) as u16
    }

    /// What the instruction word `opcode`, standing at the program counter,
    /// makes of the machine. It is refused if the program counter does not
    /// address an instruction, if the word is no instruction, and if the
    /// instruction is refused; else the instruction is done and the word
    /// remembered.
    pub open spec fn execute(self, opcode: u16, random: u8) -> Result<Machine, Fault> {
        if !self.can_fetch() {
            Err(Fault::ProgramCounter { pc: self.pc as usize })
        } else {
            match spec_decode(opcode) {
                None => Err(Fault::Decode { opcode, pc: self.pc as usize }),
                Some(i) => match self.run(i, random) {
                    Ok(next) => Ok(Machine { opcode, ..next }),
                    Err(fault) => Err(fault),
                },
            }
        }
    }

    /// One cycle: the word at the program counter is fetched and executed.
    pub open spec fn cycle(self, random: u8) -> Result<Machine, Fault> {
        self.execute(self.fetch(), random)
    }
}

/// How a run of cycles ends: the machine it leaves, and the fault that
/// stopped it, if one did.
pub struct Run {
    /// The machine after the last cycle that was done.
    pub machine: Machine,
    /// The fault of the cycle that was refused.
    pub fault: Option<Fault>,
}

impl Machine {
    /// One cycle for each byte of `randoms`, each with its byte as the random
    /// byte, up to the first cycle that is refused.
    pub open spec fn cycles(self, randoms: Seq<u8>) -> Run
        decreases randoms.len(),
    {
        if randoms.len() == 0 {
            Run { machine: self, fault: None }
        } else {
            let before = self.cycles(randoms.drop_last());
            match before.fault {
                Some(_) => before,
                None => match before.machine.cycle(randoms.last()) {
                    Ok(next) => Run { machine: next, fault: None },
                    Err(fault) => Run { machine: before.machine, fault: Some(fault) },
                },
            }
        }
    }
}

/// Whether an instruction word asks for a random byte.
pub open spec fn needs_random(opcode: u16) -> bool {
    opcode as int / 0x1000 == 0xC
}

} // verus!
