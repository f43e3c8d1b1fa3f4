use crate::bits::{
    lemma_high_bit, lemma_low_bit, lemma_shift_left, lemma_shift_right, lemma_word_of_bytes,
};
use crate::decode::{decode, lemma_decode_then_encode, lemma_fields_by_masks, Instruction};
use crate::fault::Fault;
use crate::machine::{is_outcome, Chip8};
use crate::model::{Machine, MEMORY_SIZE};
use crate::semantics::{highest_key, needs_random, wrap};
use crate::sprite::draw_sprite;
use rand::Rng;
use vstd::prelude::*;

verus! {

/// A byte from the thread's random number generator: `rand::thread_rng`,
/// then `rand::Rng::gen`. Nothing is claimed of the byte: every value is
/// possible, and two calls need not agree. The generator is seeded from the
/// operating system when a thread first uses it, and `thread_rng` panics if
/// the operating system has no seed to give.
#[verifier::external_body]
fn random_byte() -> (byte: u8) {
    rand::thread_rng().gen()
}

impl Chip8 {
    /// `Vx = value`, and on to the next instruction.
    fn write_register(&mut self, x: u8, value: u8)
        requires
            x < 16,
            old(self).pc < 4095,
        ensures
            final(self)@ == old(self)@.set_reg(x, value).advance(2),
    {
        self.v[x as usize] = value;
        self.pc += 2;
    }

    /// `Vx = value`, then `VF = flag`, and on to the next instruction.
    fn write_register_then_flag(&mut self, x: u8, value: u8, flag: u8)
        requires
            x < 16,
            old(self).pc < 4095,
        ensures
            final(self)@ == old(self)@.set_reg(x, value).set_flag(flag).advance(2),
    {
        self.v[x as usize] = value;
        self.v[15] = flag;
        self.pc += 2;
    }

    /// On by one instruction, or by two if `cond` holds.
    fn skip(&mut self, cond: bool)
        requires
            old(self).pc < 4095,
        ensures
            final(self)@ == old(self)@.skip_if(cond),
    {
        if cond {
            self.pc += 4;
        } else {
            self.pc += 2;
        }
    }

    /// `00E0`.
    fn clear_screen(&mut self)
        requires
            old(self).pc < 4095,
        ensures
            final(self)@ == old(self)@.clear_screen(),
    {
        self.gfx = [0u8; 2048];
        self.draw_flag = true;
        self.pc += 2;
    }

    /// `00EE`.
    fn ret(&mut self) -> (result: Result<(), Fault>)
        ensures
            is_outcome(*old(self), *final(self), result, old(self)@.ret()),
    {
        if self.sp == 0 {
            return Err(Fault::StackUnderflow);
        }
        if self.sp > 16 {
            return Err(Fault::StackOverflow);
        }
        let target: usize = self.stack[self.sp - 1];
        if target > usize::MAX - 2 {
            return Err(Fault::AddressOverflow);
        }
        self.sp -= 1;
        self.pc = target + 2;
        Ok(())
    }

    /// `2nnn`.
    fn call(&mut self, addr: u16) -> (result: Result<(), Fault>)
        ensures
            is_outcome(*old(self), *final(self), result, old(self)@.call(addr)),
    {
        if self.sp >= 16 {
            return Err(Fault::StackOverflow);
        }
        self.stack[self.sp] = self.pc;
        self.sp += 1;
        self.pc = addr as usize;
        assert(self@ =~= old(self)@.call(addr).unwrap());
        Ok(())
    }

    /// `8xy6`.
    fn shift_right(&mut self, x: u8)
        requires
            x < 16,
            old(self).pc < 4095,
        ensures
            ({
                let flagged = old(self)@.set_flag((old(self)@.reg(x) % 2) as u8);
                final(self)@ == flagged.set_reg(x, (flagged.reg(x) / 2) as u8).advance(2)
            }),
    {
        let bit: u8 = self.v[x as usize] & 1;
        self.v[15] = bit;
        let value: u8 = self.v[x as usize];
        self.v[x as usize] = value >> 1;
        self.pc += 2;
        proof {
            lemma_low_bit(old(self).v[x as int]);
            lemma_shift_right(value);
        }
    }

    /// `8xyE`.
    fn shift_left(&mut self, x: u8)
        requires
            x < 16,
            old(self).pc < 4095,
        ensures
            ({
                let flagged = old(self)@.set_flag((old(self)@.reg(x) / 128) as u8);
                final(self)@ == flagged.set_reg(x, wrap(flagged.reg(x) * 2)).advance(2)
            }),
    {
        let bit: u8 = self.v[x as usize] >> 7;
        self.v[15] = bit;
        let value: u8 = self.v[x as usize];
        self.v[x as usize] = value << 1;
        self.pc += 2;
        proof {
            lemma_high_bit(old(self).v[x as int]);
            lemma_shift_left(value);
        }
    }

    /// `Dxyn`.
    fn draw(&mut self, x: u8, y: u8, n: u8) -> (result: Result<(), Fault>)
        requires
            x < 16,
            y < 16,
            n < 16,
            old(self).pc < 4095,
        ensures
            is_outcome(*old(self), *final(self), result, old(self)@.draw(x, y, n)),
    {
        if n > 0 && self.index > MEMORY_SIZE - n as usize {
            return Err(Fault::Memory { index: self.index });
        }
        let vx: u8 = self.v[x as usize];
        let vy: u8 = self.v[y as usize];
        let collision: bool = draw_sprite(&mut self.gfx, &self.memory, self.index, n, vx, vy);
        self.v[15] = if collision {
            1
        } else {
            0
        };
        self.draw_flag = true;
        self.pc += 2;
        Ok(())
    }

    /// `Ex9E` and `ExA1`.
    fn skip_key(&mut self, x: u8, down: bool) -> (result: Result<(), Fault>)
        requires
            x < 16,
            old(self).pc < 4095,
        ensures
            is_outcome(*old(self), *final(self), result, old(self)@.skip_key(x, down)),
    {
        let key: u8 = self.v[x as usize];
        if key >= 16 {
            return Err(Fault::Key { key });
        }
        let pressed: bool = self.key[key as usize];
        self.skip(pressed == down);
        Ok(())
    }

    /// `Fx0A`.
    fn wait_key(&mut self, x: u8)
        requires
            x < 16,
            old(self).pc < 4095,
        ensures
            final(self)@ == old(self)@.wait_key(x),
    {
        let mut found: Option<u8> = None;
        let mut k: u8 = 0;
        while k < 16
            invariant
                k <= 16,
                *self == *old(self),
                match found {
                    None => highest_key(self.key@, k as int) == -1,
                    Some(key) => highest_key(self.key@, k as int) == key,
                },
            decreases 16 - k,
        {
            if self.key[k as usize] {
                found = Some(k);
            }
            k += 1;
        }
        match found {
            None => {},
            Some(key) => {
                self.v[x as usize] = key;
                self.pc += 2;
            },
        }
    }

    /// `Fx1E`.
    fn add_index(&mut self, x: u8) -> (result: Result<(), Fault>)
        requires
            x < 16,
            old(self).pc < 4095,
        ensures
            is_outcome(*old(self), *final(self), result, old(self)@.add_index(x)),
    {
        let value: usize = self.v[x as usize] as usize;
        if self.index > usize::MAX - value {
            return Err(Fault::AddressOverflow);
        }
        let sum: usize = self.index + value;
        self.index = sum;
        self.v[15] = if sum > 0xFFF {
            1
        } else {
            0
        };
        self.pc += 2;
        Ok(())
    }

    /// `Fx33`.
    fn store_bcd(&mut self, x: u8) -> (result: Result<(), Fault>)
        requires
            x < 16,
            old(self).pc < 4095,
        ensures
            is_outcome(*old(self), *final(self), result, old(self)@.store_bcd(x)),
    {
        if self.index > MEMORY_SIZE - 3 {
            return Err(Fault::Memory { index: self.index });
        }
        let value: u8 = self.v[x as usize];
        self.memory[self.index] = value / 100;
        self.memory[self.index + 1] = (value / 10) % 10;
        self.memory[self.index + 2] = value % 10;
        self.pc += 2;
        Ok(())
    }

    /// `Fx55`.
    fn store_regs(&mut self, x: u8) -> (result: Result<(), Fault>)
        requires
            x < 16,
            old(self).pc < 4095,
        ensures
            is_outcome(*old(self), *final(self), result, old(self)@.store_regs(x)),
    {
        let count: usize = x as usize + 1;
        if self.index > MEMORY_SIZE - count {
            return Err(Fault::Memory { index: self.index });
        }
        let mut r: usize = 0;
        while r < count
            invariant
                r <= count == x + 1 <= 16,
                self.index + count <= 4096,
                self@ == (Machine { memory: self@.memory, ..old(self)@ }),
                forall|a: int|
                    self.index <= a < self.index + r ==> self.memory[a] == self.v[a - self.index],
                forall|a: int|
                    0 <= a < 4096 && !(self.index <= a < self.index + r) ==> self.memory[a] == old(
                        self,
                    ).memory[a],
            decreases count - r,
        {
            self.memory[self.index + r] = self.v[r];
            r += 1;
        }
        self.pc += 2;
        assert(self@ =~= old(self)@.store_regs(x).unwrap());
        Ok(())
    }

    /// `Fx65`.
    fn load_regs(&mut self, x: u8) -> (result: Result<(), Fault>)
        requires
            x < 16,
            old(self).pc < 4095,
        ensures
            is_outcome(*old(self), *final(self), result, old(self)@.load_regs(x)),
    {
        let count: usize = x as usize + 1;
        if self.index > MEMORY_SIZE - count {
            return Err(Fault::Memory { index: self.index });
        }
        let mut r: usize = 0;
        while r < count
            invariant
                r <= count == x + 1 <= 16,
                self.index + count <= 4096,
                self@ == (Machine { v: self@.v, ..old(self)@ }),
                forall|k: int| 0 <= k < r ==> self.v[k] == self.memory[self.index + k],
                forall|k: int| r <= k < 16 ==> self.v[k] == old(self).v[k],
            decreases count - r,
        {
            self.v[r] = self.memory[self.index + r];
            r += 1;
        }
        self.pc += 2;
        assert(self@ =~= old(self)@.load_regs(x).unwrap());
        Ok(())
    }

    /// Does one instruction.
    fn run(&mut self, i: Instruction, random: u8) -> (result: Result<(), Fault>)
        requires
            i.wf(),
            old(self).pc < 4095,
        ensures
            is_outcome(*old(self), *final(self), result, old(self)@.run(i, random)),
    {
        match i {
            Instruction::ClearScreen => {
                self.clear_screen();
                Ok(())
            },
            Instruction::Return => self.ret(),
            Instruction::Jump { addr } => {
                self.pc = addr as usize;
                Ok(())
            },
            Instruction::Call { addr } => self.call(addr),
            Instruction::SkipEqImm { x, nn } => {
                self.skip(self.v[x as usize] == nn);
                Ok(())
            },
            Instruction::SkipNeImm { x, nn } => {
                self.skip(self.v[x as usize] != nn);
                Ok(())
            },
            Instruction::SkipEqReg { x, y } => {
                self.skip(self.v[x as usize] == self.v[y as usize]);
                Ok(())
            },
            Instruction::LoadImm { x, nn } => {
                self.write_register(x, nn);
                Ok(())
            },
            Instruction::AddImm { x, nn } => {
                self.write_register(x, self.v[x as usize].wrapping_add(nn));
                Ok(())
            },
            Instruction::Move { x, y } => {
                self.write_register(x, self.v[y as usize]);
                Ok(())
            },
            Instruction::Or { x, y } => {
                self.write_register(x, self.v[x as usize] | self.v[y as usize]);
                Ok(())
            },
            Instruction::And { x, y } => {
                self.write_register(x, self.v[x as usize] & self.v[y as usize]);
                Ok(())
            },
            Instruction::Xor { x, y } => {
                self.write_register(x, self.v[x as usize] ^ self.v[y as usize]);
                Ok(())
            },
            Instruction::AddReg { x, y } => {
                let vx: u8 = self.v[x as usize];
                let vy: u8 = self.v[y as usize];
                let carry: u8 = if vx > 255 - vy {
                    1
                } else {
                    0
                };
                self.write_register_then_flag(x, vx.wrapping_add(vy), carry);
                Ok(())
            },
            Instruction::SubReg { x, y } => {
                let vx: u8 = self.v[x as usize];
                let vy: u8 = self.v[y as usize];
                let no_borrow: u8 = if vx >= vy {
                    1
                } else {
                    0
                };
                self.write_register_then_flag(x, vx.wrapping_sub(vy), no_borrow);
                Ok(())
            },
            Instruction::ShiftRight { x, y } => {
                self.shift_right(x);
                Ok(())
            },
            Instruction::SubFrom { x, y } => {
                let vx: u8 = self.v[x as usize];
                let vy: u8 = self.v[y as usize];
                let no_borrow: u8 = if vy >= vx {
                    1
                } else {
                    0
                };
                self.write_register_then_flag(x, vy.wrapping_sub(vx), no_borrow);
                Ok(())
            },
            Instruction::ShiftLeft { x, y } => {
                self.shift_left(x);
                Ok(())
            },
            Instruction::SkipNeReg { x, y } => {
                self.skip(self.v[x as usize] != self.v[y as usize]);
                Ok(())
            },
            Instruction::LoadIndex { addr } => {
                self.index = addr as usize;
                self.pc += 2;
                Ok(())
            },
            Instruction::JumpOffset { addr } => {
                self.pc = addr as usize + self.v[0] as usize;
                Ok(())
            },
            Instruction::Random { x, nn } => {
                self.write_register(x, random & nn);
                Ok(())
            },
            Instruction::Draw { x, y, n } => self.draw(x, y, n),
            Instruction::SkipKey { x } => self.skip_key(x, true),
            Instruction::SkipNoKey { x } => self.skip_key(x, false),
            Instruction::ReadDelay { x } => {
                self.write_register(x, self.delay_timer);
                Ok(())
            },
            Instruction::WaitKey { x } => {
                self.wait_key(x);
                Ok(())
            },
            Instruction::SetDelay { x } => {
                self.delay_timer = self.v[x as usize];
                self.pc += 2;
                Ok(())
            },
            Instruction::SetSound { x } => {
                self.sound_timer = self.v[x as usize];
                self.pc += 2;
                Ok(())
            },
            Instruction::AddIndex { x } => self.add_index(x),
            Instruction::FontAddr { x } => {
                self.index = self.v[x as usize] as usize * 5;
                self.pc += 2;
                Ok(())
            },
            Instruction::StoreBcd { x } => self.store_bcd(x),
            Instruction::StoreRegs { x } => self.store_regs(x),
            Instruction::LoadRegs { x } => self.load_regs(x),
        }
    }

    /// Executes the instruction word `opcode` as the instruction at the
    /// program counter, with `random` as the byte that `Cxnn` draws.
    ///
    /// # Faults
    ///
    /// In this order: [`Fault::ProgramCounter`] if the program counter does
    /// not address two bytes of memory; [`Fault::Decode`] if the word is no
    /// instruction; then what the instruction itself refuses.
    pub fn execute(&mut self, opcode: u16, random: u8) -> (result: Result<(), Fault>)
        ensures
            is_outcome(*old(self), *final(self), result, old(self)@.execute(opcode, random)),
    {
        if self.pc >= MEMORY_SIZE - 1 {
            return Err(Fault::ProgramCounter { pc: self.pc });
        }
        match decode(opcode) {
            None => Err(Fault::Decode { opcode, pc: self.pc }),
            Some(i) => {
                proof {
                    lemma_decode_then_encode(opcode);
                }
                match self.run(i, random) {
                    Ok(()) => {
                        self.opcode = opcode;
                        Ok(())
                    },
                    Err(fault) => Err(fault),
                }
            },
        }
    }

    /// One cycle: fetches the word at the program counter, high byte first,
    /// and executes it. Only for `Cxnn` a random byte is drawn.
    ///
    /// The outcome is that of [`Machine::cycle`] for some random byte, and
    /// for every other instruction than `Cxnn` it is the same for all.
    pub fn emulate_cycle(&mut self) -> (result: Result<(), Fault>)
        ensures
            exists|random: u8|
                is_outcome(*old(self), *final(self), result, #[trigger] old(self)@.cycle(random)),
            !needs_random(old(self)@.fetch()) ==> is_outcome(
                *old(self),
                *final(self),
                result,
                old(self)@.cycle(0),
            ),
    {
        if self.pc >= MEMORY_SIZE - 1 {
            assert(is_outcome(
                *old(self),
                *self,
                Err(Fault::ProgramCounter { pc: self.pc }),
                old(self)@.cycle(0),
            ));
            return Err(Fault::ProgramCounter { pc: self.pc });
        }
        let high: u8 = self.memory[self.pc];
        let low: u8 = self.memory[self.pc + 1];
        let opcode: u16 = ((high as u16) << 8) | (low as u16);
        proof {
            lemma_word_of_bytes(high, low);
            lemma_fields_by_masks(opcode);
        }
        let random: u8 = if opcode >> 12 == 0xC {
            random_byte()
        } else {
            0
        };
        let result = self.execute(opcode, random);
        assert(is_outcome(*old(self), *self, result, old(self)@.cycle(random)));
        result
    }
}

} // verus!
