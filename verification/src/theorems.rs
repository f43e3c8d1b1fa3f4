use crate::bits::{
    lemma_high_bit, lemma_low_bit, lemma_masked, lemma_shift_left, lemma_shift_right,
    lemma_toggle_stays_binary, lemma_toggle_to_one,
};
use crate::decode::{lemma_decode_then_encode, lemma_encode_then_decode, Instruction};
use crate::fault::Fault;
use crate::model::Machine;
use crate::semantics::{highest_key, needs_random};
use crate::sprite::{
    cell_of, lemma_bits_of_full_row, lemma_drawn_twice, lemma_second_draw_collides,
    lemma_sprite_cell_wraps, sprite_at,
};
use vstd::prelude::*;

verus! {

/// What becomes of the machine `m` when the instruction `i` stands at its
/// program counter and is executed.
pub open spec fn after(m: Machine, i: Instruction, random: u8) -> Result<Machine, Fault> {
    m.execute(i.encode() as u16, random)
}

/// Executing the encoding of an instruction at a program counter that
/// addresses an instruction does what the instruction does, and remembers
/// the word.
pub proof fn lemma_execute_encoded(m: Machine, i: Instruction, random: u8)
    requires
        m.can_fetch(),
        i.wf(),
    ensures
        after(m, i, random) == match m.run(i, random) {
            Ok(next) => Ok(Machine { opcode: i.encode() as u16, ..next }),
            Err(fault) => Err(fault),
        },
{
    lemma_encode_then_decode(i);
}

/// Only `Cxnn` looks at the random byte: every other instruction word has
/// one outcome, whatever the byte.
pub proof fn lemma_random_only_for_cxnn(m: Machine, opcode: u16, r1: u8, r2: u8)
    requires
        !needs_random(opcode),
    ensures
        m.execute(opcode, r1) == m.execute(opcode, r2),
{
}

/// `Cxnn` leaves in `Vx` only bits of `nn`.
pub proof fn lemma_random_is_masked(m: Machine, x: u8, nn: u8, random: u8)
    requires
        m.can_fetch(),
        m.wf(),
        x < 16,
    ensures
        after(m, Instruction::Random { x, nn }, random) matches Ok(next) && next.reg(x) & !nn == 0
            && next.pc == m.pc + 2,
{
    lemma_execute_encoded(m, Instruction::Random { x, nn }, random);
    lemma_masked(random, nn);
}

/// `7xnn`: `Vx` becomes the sum modulo 256, and no other register changes,
/// `VF` included.
pub proof fn lemma_add_immediate_wraps(m: Machine, x: u8, nn: u8, random: u8)
    requires
        m.can_fetch(),
        m.wf(),
        x < 16,
    ensures
        after(m, Instruction::AddImm { x, nn }, random) matches Ok(next) && {
            &&& next.reg(x) == (m.reg(x) + nn) % 256
            &&& forall|r: u8| r < 16 && r != x ==> next.reg(r) == m.reg(r)
            &&& next.pc == m.pc + 2
        },
{
    lemma_execute_encoded(m, Instruction::AddImm { x, nn }, random);
}

/// `8xy4`: `VF` is 1 exactly if the sum is beyond 255, and `Vx`, unless it
/// is `VF` itself, is the sum modulo 256.
pub proof fn lemma_add_wraps_with_carry(m: Machine, x: u8, y: u8, random: u8)
    requires
        m.can_fetch(),
        m.wf(),
        x < 16,
        y < 16,
    ensures
        after(m, Instruction::AddReg { x, y }, random) matches Ok(next) && {
            &&& next.reg(15) == if m.reg(x) + m.reg(y) > 255 { 1u8 } else { 0u8 }
            &&& x != 15 ==> next.reg(x) == (m.reg(x) + m.reg(y)) % 256
            &&& forall|r: u8| r < 15 && r != x ==> next.reg(r) == m.reg(r)
            &&& next.pc == m.pc + 2
        },
{
    lemma_execute_encoded(m, Instruction::AddReg { x, y }, random);
}

/// `8xy5`: `VF` is 0 exactly if `Vx - Vy` borrows, and `Vx`, unless it is
/// `VF` itself, is the difference modulo 256.
pub proof fn lemma_sub_wraps_with_borrow(m: Machine, x: u8, y: u8, random: u8)
    requires
        m.can_fetch(),
        m.wf(),
        x < 16,
        y < 16,
    ensures
        after(m, Instruction::SubReg { x, y }, random) matches Ok(next) && {
            &&& next.reg(15) == if m.reg(x) < m.reg(y) { 0u8 } else { 1u8 }
            &&& x != 15 ==> next.reg(x) == (m.reg(x) - m.reg(y)) % 256
            &&& forall|r: u8| r < 15 && r != x ==> next.reg(r) == m.reg(r)
            &&& next.pc == m.pc + 2
        },
{
    lemma_execute_encoded(m, Instruction::SubReg { x, y }, random);
}

/// `8xy7`: `VF` is 0 exactly if `Vy - Vx` borrows, and `Vx`, unless it is
/// `VF` itself, is the difference modulo 256.
pub proof fn lemma_sub_from_wraps_with_borrow(m: Machine, x: u8, y: u8, random: u8)
    requires
        m.can_fetch(),
        m.wf(),
        x < 16,
        y < 16,
    ensures
        after(m, Instruction::SubFrom { x, y }, random) matches Ok(next) && {
            &&& next.reg(15) == if m.reg(y) < m.reg(x) { 0u8 } else { 1u8 }
            &&& x != 15 ==> next.reg(x) == (m.reg(y) - m.reg(x)) % 256
            &&& forall|r: u8| r < 15 && r != x ==> next.reg(r) == m.reg(r)
            &&& next.pc == m.pc + 2
        },
{
    lemma_execute_encoded(m, Instruction::SubFrom { x, y }, random);
}

/// `8xy6`: `VF` is the bit that the shift drops, the lowest, and `Vx` is
/// shifted right by one. Where `Vx` is `VF` itself, the flag is set first
/// and then shifted, which leaves 0.
pub proof fn lemma_shift_right_keeps_dropped_bit(m: Machine, x: u8, y: u8, random: u8)
    requires
        m.can_fetch(),
        m.wf(),
        x < 16,
        y < 16,
    ensures
        after(m, Instruction::ShiftRight { x, y }, random) matches Ok(next) && {
            &&& x != 15 ==> next.reg(15) == m.reg(x) & 1 && next.reg(x) == m.reg(x) >> 1
            &&& x == 15 ==> next.reg(15) == 0
            &&& forall|r: u8| r < 15 && r != x ==> next.reg(r) == m.reg(r)
            &&& next.pc == m.pc + 2
        },
{
    lemma_execute_encoded(m, Instruction::ShiftRight { x, y }, random);
    lemma_low_bit(m.reg(x));
    lemma_shift_right(m.reg(x));
}

/// `8xyE`: `VF` is the bit that the shift drops, the highest, and `Vx` is
/// shifted left by one. Where `Vx` is `VF` itself, the flag is set first
/// and then shifted.
pub proof fn lemma_shift_left_keeps_dropped_bit(m: Machine, x: u8, y: u8, random: u8)
    requires
        m.can_fetch(),
        m.wf(),
        x < 16,
        y < 16,
    ensures
        after(m, Instruction::ShiftLeft { x, y }, random) matches Ok(next) && {
            &&& x != 15 ==> next.reg(15) == m.reg(x) >> 7 && next.reg(x) == m.reg(x) << 1
            &&& x == 15 ==> next.reg(15) == (m.reg(x) >> 7) << 1
            &&& forall|r: u8| r < 15 && r != x ==> next.reg(r) == m.reg(r)
            &&& next.pc == m.pc + 2
        },
{
    lemma_execute_encoded(m, Instruction::ShiftLeft { x, y }, random);
    lemma_high_bit(m.reg(x));
    lemma_shift_left(m.reg(x));
    lemma_shift_left((m.reg(x) / 128) as u8);
}

/// The program counter after an instruction that skips if `cond` holds:
/// four bytes on if it holds, else two; nothing else changes but the
/// remembered word.
pub open spec fn skipped(m: Machine, i: Instruction, cond: bool) -> Result<Machine, Fault> {
    Ok(
        Machine {
            pc: if cond {
                m.pc + 4
            } else {
                m.pc + 2
            },
            opcode: i.encode() as u16,
            ..m
        },
    )
}

/// `3xnn`, `4xnn`, `5xy0` and `9xy0` move the program counter on by 4 if
/// their condition holds and by 2 if not, and change nothing else.
pub proof fn lemma_skips_advance_by_four_or_two(m: Machine, x: u8, y: u8, nn: u8, random: u8)
    requires
        m.can_fetch(),
        m.wf(),
        x < 16,
        y < 16,
    ensures
        ({
            let i = Instruction::SkipEqImm { x, nn };
            after(m, i, random) == skipped(m, i, m.reg(x) == nn)
        }),
        ({
            let i = Instruction::SkipNeImm { x, nn };
            after(m, i, random) == skipped(m, i, m.reg(x) != nn)
        }),
        ({
            let i = Instruction::SkipEqReg { x, y };
            after(m, i, random) == skipped(m, i, m.reg(x) == m.reg(y))
        }),
        ({
            let i = Instruction::SkipNeReg { x, y };
            after(m, i, random) == skipped(m, i, m.reg(x) != m.reg(y))
        }),
{
    lemma_execute_encoded(m, Instruction::SkipEqImm { x, nn }, random);
    lemma_execute_encoded(m, Instruction::SkipNeImm { x, nn }, random);
    lemma_execute_encoded(m, Instruction::SkipEqReg { x, y }, random);
    lemma_execute_encoded(m, Instruction::SkipNeReg { x, y }, random);
}

/// `Ex9E` and `ExA1`, where `Vx` is a key, move the program counter on by 4
/// if the key is down, or up, and by 2 if not, and change nothing else.
pub proof fn lemma_key_skips_advance_by_four_or_two(m: Machine, x: u8, random: u8)
    requires
        m.can_fetch(),
        m.wf(),
        x < 16,
        m.reg(x) < 16,
    ensures
        ({
            let i = Instruction::SkipKey { x };
            after(m, i, random) == skipped(m, i, m.key[m.reg(x) as int])
        }),
        ({
            let i = Instruction::SkipNoKey { x };
            after(m, i, random) == skipped(m, i, !m.key[m.reg(x) as int])
        }),
{
    lemma_execute_encoded(m, Instruction::SkipKey { x }, random);
    lemma_execute_encoded(m, Instruction::SkipNoKey { x }, random);
}

/// The timers after `frames` ticks.
pub open spec fn ticks(m: Machine, frames: nat) -> Machine
    decreases frames,
{
    if frames == 0 {
        m
    } else {
        ticks(m, (frames - 1) as nat).tick()
    }
}

/// A timer goes down by one per tick until it is at zero, and stays there:
/// it never wraps.
pub proof fn lemma_timers_stop_at_zero(m: Machine, frames: nat)
    ensures
        ticks(m, frames).delay_timer == if m.delay_timer >= frames {
            m.delay_timer - frames
        } else {
            0
        },
        ticks(m, frames).sound_timer == if m.sound_timer >= frames {
            m.sound_timer - frames
        } else {
            0
        },
    decreases frames,
{
    if frames > 0 {
        lemma_timers_stop_at_zero(m, (frames - 1) as nat);
    }
}

/// Loading the font set twice is loading it once.
pub proof fn lemma_font_is_idempotent(m: Machine)
    ensures
        m.with_font().with_font() == m.with_font(),
{
    assert(m.with_font().with_font().memory =~= m.with_font().memory);
}

/// `highest_key` is -1 exactly if no key below `below` is down; else it is
/// a key that is down, and no key above it and below `below` is.
pub proof fn lemma_highest_key(key: Seq<bool>, below: int)
    ensures
        -1 <= highest_key(key, below),
        highest_key(key, below) < below || below <= 0,
        highest_key(key, below) == -1 <==> forall|k: int| 0 <= k < below ==> !key[k],
        highest_key(key, below) >= 0 ==> key[highest_key(key, below)],
        forall|k: int| highest_key(key, below) < k < below ==> !key[k],
    decreases below,
{
    if below > 0 {
        lemma_highest_key(key, below - 1);
    }
}

/// `Fx0A` with no key down: the machine stays as it is but for the word it
/// remembers, the program counter included, so that the next cycle meets
/// the instruction again; and so on for as long as no key is down.
pub proof fn lemma_wait_key_waits(m: Machine, x: u8, random: u8)
    requires
        m.can_fetch(),
        m.wf(),
        x < 16,
        forall|k: int| 0 <= k < 16 ==> !m.key[k],
    ensures
        ({
            let i = Instruction::WaitKey { x };
            let waiting = Machine { opcode: i.encode() as u16, ..m };
            &&& after(m, i, random) == Ok::<Machine, Fault>(waiting)
            &&& after(waiting, i, random) == Ok::<Machine, Fault>(waiting)
        }),
{
    let i = Instruction::WaitKey { x };
    let waiting = Machine { opcode: i.encode() as u16, ..m };
    lemma_highest_key(m.key, 16);
    lemma_execute_encoded(m, i, random);
    lemma_execute_encoded(waiting, i, random);
}

/// `Fx0A` with a key down: `Vx` is the highest key that is down, and the
/// program counter moves on by 2.
pub proof fn lemma_wait_key_takes_key(m: Machine, x: u8, key: u8, random: u8)
    requires
        m.can_fetch(),
        m.wf(),
        x < 16,
        key < 16,
        m.key[key as int],
        forall|k: int| key < k < 16 ==> !m.key[k],
    ensures
        ({
            let i = Instruction::WaitKey { x };
            after(m, i, random) == Ok::<Machine, Fault>(
                Machine {
                    v: m.v.update(x as int, key),
                    pc: m.pc + 2,
                    opcode: i.encode() as u16,
                    ..m
                },
            )
        }),
{
    lemma_highest_key(m.key, 16);
    lemma_execute_encoded(m, Instruction::WaitKey { x }, random);
}

/// `2nnn` and then `00EE`: a call from a machine with room on the stack
/// continues at `addr`. Whatever runs there, once it comes to a return with
/// the stack pointer where the call left it and the frame of the call
/// intact, the return continues at the instruction behind the call, with
/// the stack pointer where it was before the call.
pub proof fn lemma_call_then_return(m: Machine, addr: u16, later: Machine, random: u8)
    requires
        m.can_fetch(),
        m.wf(),
        addr < 0x1000,
        m.sp < 16,
        later.can_fetch(),
        later.wf(),
        later.sp == m.sp + 1,
        later.stack[m.sp] == m.pc,
    ensures
        after(m, Instruction::Call { addr }, random) matches Ok(called) && {
            &&& called.pc == addr
            &&& called.sp == m.sp + 1
            &&& called.stack[m.sp] == m.pc
            &&& after(called, Instruction::Return, random) matches Ok(back) ==> back.pc == m.pc + 2
                && back.sp == m.sp
        },
        after(later, Instruction::Return, random) matches Ok(back) && back.pc == m.pc + 2 && back.sp
            == m.sp,
{
    lemma_execute_encoded(m, Instruction::Call { addr }, random);
    lemma_execute_encoded(later, Instruction::Return, random);
    let called = after(m, Instruction::Call { addr }, random).unwrap();
    if called.can_fetch() {
        lemma_execute_encoded(called, Instruction::Return, random);
    }
}

/// A machine of the right shape keeps it through every instruction.
pub proof fn lemma_execute_keeps_shape(m: Machine, opcode: u16, random: u8)
    requires
        m.wf(),
    ensures
        m.execute(opcode, random) matches Ok(next) ==> next.wf(),
{
    lemma_decode_then_encode(opcode);
}

/// A framebuffer whose cells hold 0 or 1 stays so through every instruction.
pub proof fn lemma_execute_keeps_cells_binary(m: Machine, opcode: u16, random: u8)
    requires
        m.wf(),
        forall|c: int| 0 <= c < 2048 ==> m.gfx[c] <= 1,
    ensures
        m.execute(opcode, random) matches Ok(next) ==> forall|c: int|
            0 <= c < 2048 ==> next.gfx[c] <= 1,
{
    lemma_decode_then_encode(opcode);
    if let Ok(next) = m.execute(opcode, random) {
        assert forall|c: int| 0 <= c < 2048 implies next.gfx[c] <= 1 by {
            lemma_toggle_stays_binary(m.gfx[c]);
        }
    }
}

/// `Dxyn` twice, with `Vx` and `Vy` other registers than `VF`, a sprite
/// that lies in memory and a program counter that addresses two
/// instructions: the second draw undoes the first. It sets `VF` exactly if
/// the sprite toggles a cell that was dark at the start.
pub proof fn lemma_draw_twice_restores(m: Machine, x: u8, y: u8, n: u8, random: u8)
    requires
        m.wf(),
        m.can_fetch(),
        m.advance(2).can_fetch(),
        x < 15,
        y < 15,
        n < 16,
        n == 0 || m.index + n <= 4096,
    ensures
        ({
            let i = Instruction::Draw { x, y, n };
            let sprite = sprite_at(m.memory, m.index, n as int, m.reg(x), m.reg(y));
            &&& after(m, i, random) matches Ok(once)
            &&& after(once, i, random) matches Ok(twice)
            &&& once.gfx == sprite.drawn(m.gfx)
            &&& once.draw_flag
            &&& twice.gfx == m.gfx
            &&& twice.reg(15) == 1 <==> exists|c: int|
                0 <= c < 2048 && #[trigger] sprite.toggles(c) && m.gfx[c] == 0
        }),
{
    let i = Instruction::Draw { x, y, n };
    let sprite = sprite_at(m.memory, m.index, n as int, m.reg(x), m.reg(y));
    lemma_execute_encoded(m, i, random);
    let once = after(m, i, random).unwrap();
    lemma_execute_encoded(once, i, random);
    assert(sprite_at(once.memory, once.index, n as int, once.reg(x), once.reg(y)) == sprite);
    lemma_drawn_twice(sprite, m.gfx);
    lemma_second_draw_collides(sprite, m.gfx);
}

/// `Dxyn` of a sprite of ones on a dark screen, with `Vx` and `Vy` other
/// registers than `VF` and at least one row: `VF` is 0 and every cell under
/// the sprite is lit, wrapped round the framebuffer; drawn once more, `VF`
/// is 1 and the screen is dark again.
pub proof fn lemma_draw_on_dark_screen(m: Machine, x: u8, y: u8, n: u8, random: u8)
    requires
        m.wf(),
        m.can_fetch(),
        m.advance(2).can_fetch(),
        x < 15,
        y < 15,
        0 < n < 16,
        m.index + n <= 4096,
        forall|c: int| 0 <= c < 2048 ==> m.gfx[c] == 0,
        forall|a: int| m.index <= a < m.index + n ==> m.memory[a] == 0xFF,
    ensures
        ({
            let i = Instruction::Draw { x, y, n };
            &&& after(m, i, random) matches Ok(once)
            &&& after(once, i, random) matches Ok(twice)
            &&& once.reg(15) == 0
            &&& forall|row: int, col: int|
                0 <= row < n && 0 <= col < 8 ==> {
                    let cell = #[trigger] cell_of(m.reg(x) as int, m.reg(y) as int, row, col);
                    0 <= cell < 2048 && once.gfx[cell] == 1
                }
            &&& twice.reg(15) == 1
            &&& twice.gfx == m.gfx
        }),
{
    let i = Instruction::Draw { x, y, n };
    let sprite = sprite_at(m.memory, m.index, n as int, m.reg(x), m.reg(y));
    lemma_draw_twice_restores(m, x, y, n, random);
    lemma_execute_encoded(m, i, random);
    let once = after(m, i, random).unwrap();
    assert forall|row: int, col: int| 0 <= row < n && 0 <= col < 8 implies {
        let cell = #[trigger] cell_of(m.reg(x) as int, m.reg(y) as int, row, col);
        0 <= cell < 2048 && sprite.toggles(cell) && once.gfx[cell] == 1
    } by {
        lemma_sprite_cell_wraps(sprite, row, col);
        lemma_bits_of_full_row(col);
        lemma_toggle_to_one(0);
    }
    let first = cell_of(m.reg(x) as int, m.reg(y) as int, 0, 0);
    assert(sprite.toggles(first) && m.gfx[first] == 0);
}

} // verus!
