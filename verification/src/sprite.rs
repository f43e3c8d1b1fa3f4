use crate::bits::{lemma_toggle_to_one, lemma_toggle_twice};
use vstd::prelude::*;

verus! {

/// A sprite placed on the framebuffer: its rows, eight cells each with the
/// highest bit leftmost, and the column and row of its top left cell.
pub struct Sprite {
    /// One byte per row, top row first.
    pub rows: Seq<u8>,
    /// Column of the leftmost cell.
    pub vx: int,
    /// Row of the top cell.
    pub vy: int,
}

/// Whether the cell `col` of a sprite row is set; cell 0 is the highest bit.
pub open spec fn bit_at(row: u8, col: int) -> bool {
    row & (0x80u8 >> (col as u8)) != 0
}

/// The framebuffer cell on which the sprite cell (`row`, `col`) of a sprite
/// at (`vx`, `vy`) lands. The framebuffer is one ring of 2048 cells, row after
/// row: what runs over the right edge continues on the next row, and what
/// runs over the last cell continues at the first.
pub open spec fn cell_of(vx: int, vy: int, row: int, col: int) -> int {
    (vx + col + (vy + row) * 64) % 2048
}

/// How many cells after the top left cell of a sprite at (`vx`, `vy`) the
/// cell `c` comes, going round the ring.
pub open spec fn offset_of(vx: int, vy: int, c: int) -> int {
    (c - vx - vy * 64) % 2048
}

impl Sprite {
    /// Whether drawing the sprite toggles the framebuffer cell `c`: the cell
    /// lies on one of the sprite's rows, within its eight columns, and the
    /// bit there is set.
    pub open spec fn toggles(self, c: int) -> bool {
        let d = offset_of(self.vx, self.vy, c);
        &&& d / 64 < self.rows.len()
        &&& d % 64 < 8
        &&& bit_at(self.rows[d / 64], d % 64)
    }

    /// The framebuffer after the sprite is drawn: the cells it toggles are
    /// xor-ed with 1, the others stay.
    pub open spec fn drawn(self, gfx: Seq<u8>) -> Seq<u8> {
        Seq::new(
            gfx.len(),
            |c: int|
                if self.toggles(c) {
                    gfx[c] ^ 1
                } else {
                    gfx[c]
                },
        )
    }

    /// Whether the sprite toggles a cell that is lit.
    pub open spec fn collides(self, gfx: Seq<u8>) -> bool {
        exists|c: int| 0 <= c < gfx.len() && #[trigger] self.toggles(c) && gfx[c] == 1
    }
}

/// A sprite cell lands inside the framebuffer, as many cells after the top
/// left one as its row and column say.
pub proof fn lemma_cell_offset(vx: int, vy: int, row: int, col: int)
    requires
        0 <= row < 32,
        0 <= col < 64,
    ensures
        0 <= cell_of(vx, vy, row, col) < 2048,
        offset_of(vx, vy, cell_of(vx, vy, row, col)) == row * 64 + col,
{
}

/// Every framebuffer cell is the landing place of the sprite cell that its
/// offset names, and of no other: no two sprite cells land on one cell.
pub proof fn lemma_offset_cell(vx: int, vy: int, c: int)
    requires
        0 <= c < 2048,
    ensures
        0 <= offset_of(vx, vy, c) < 2048,
        cell_of(vx, vy, offset_of(vx, vy, c) / 64, offset_of(vx, vy, c) % 64) == c,
{
}

impl Sprite {
    /// The part of `toggles` that is due to the sprite cells before
    /// (`row`, `col`), reading row by row.
    spec fn toggles_before(self, c: int, row: int, col: int) -> bool {
        let d = offset_of(self.vx, self.vy, c);
        &&& self.toggles(c)
        &&& (d / 64 < row || (d / 64 == row && d % 64 < col))
    }

    /// The framebuffer when the sprite cells before (`row`, `col`) are drawn.
    spec fn drawn_before(self, gfx: Seq<u8>, row: int, col: int) -> Seq<u8> {
        Seq::new(
            gfx.len(),
            |c: int|
                if self.toggles_before(c, row, col) {
                    gfx[c] ^ 1
                } else {
                    gfx[c]
                },
        )
    }

    /// Whether a sprite cell before (`row`, `col`) toggles a cell that is lit.
    spec fn collides_before(self, gfx: Seq<u8>, row: int, col: int) -> bool {
        exists|c: int|
            0 <= c < gfx.len() && #[trigger] self.toggles_before(c, row, col) && gfx[c] == 1
    }

    /// Before the first sprite cell nothing is drawn.
    proof fn lemma_draw_start(self, gfx: Seq<u8>)
        ensures
            self.drawn_before(gfx, 0, 0) == gfx,
            !self.collides_before(gfx, 0, 0),
    {
        assert(self.drawn_before(gfx, 0, 0) =~= gfx);
    }

    /// What drawing the sprite cell (`row`, `col`) adds to the cells before it.
    proof fn lemma_draw_step(self, gfx: Seq<u8>, row: int, col: int)
        requires
            gfx.len() == 2048,
            0 <= row < self.rows.len() <= 32,
            0 <= col < 8,
        ensures
            ({
                let cell = cell_of(self.vx, self.vy, row, col);
                let now = self.drawn_before(gfx, row, col);
                let set = bit_at(self.rows[row], col);
                &&& 0 <= cell < 2048
                &&& now[cell] == gfx[cell]
                &&& self.drawn_before(gfx, row, col + 1) == if set {
                    now.update(cell, gfx[cell] ^ 1)
                } else {
                    now
                }
                &&& self.collides_before(gfx, row, col + 1) == (self.collides_before(gfx, row, col)
                    || (set && gfx[cell] == 1))
            }),
    {
        let cell = cell_of(self.vx, self.vy, row, col);
        let now = self.drawn_before(gfx, row, col);
        let next = self.drawn_before(gfx, row, col + 1);
        let set = bit_at(self.rows[row], col);
        lemma_cell_offset(self.vx, self.vy, row, col);
        assert(!self.toggles_before(cell, row, col));
        assert(self.toggles_before(cell, row, col + 1) == set);
        assert forall|c: int| 0 <= c < 2048 && c != cell implies self.toggles_before(
            c,
            row,
            col + 1,
        ) == self.toggles_before(c, row, col) by {
            lemma_offset_cell(self.vx, self.vy, c);
        }
        if set {
            assert(next =~= now.update(cell, gfx[cell] ^ 1));
        } else {
            assert(next =~= now);
        }
        if self.collides_before(gfx, row, col + 1) {
            let c = choose|c: int|
                0 <= c < gfx.len() && #[trigger] self.toggles_before(c, row, col + 1) && gfx[c]
                    == 1;
            if c != cell {
                assert(self.toggles_before(c, row, col));
            }
        }
        if self.collides_before(gfx, row, col) {
            let c = choose|c: int|
                0 <= c < gfx.len() && #[trigger] self.toggles_before(c, row, col) && gfx[c] == 1;
            assert(self.toggles_before(c, row, col + 1));
        }
        if set && gfx[cell] == 1 {
            assert(self.toggles_before(cell, row, col + 1));
        }
    }

    /// After the last cell of a row comes the first cell of the next.
    proof fn lemma_draw_next_row(self, gfx: Seq<u8>, row: int)
        ensures
            self.drawn_before(gfx, row, 8) == self.drawn_before(gfx, row + 1, 0),
            self.collides_before(gfx, row, 8) == self.collides_before(gfx, row + 1, 0),
    {
        assert forall|c: int|
            self.toggles_before(c, row, 8) == self.toggles_before(c, row + 1, 0) by {}
        assert(self.drawn_before(gfx, row, 8) =~= self.drawn_before(gfx, row + 1, 0));
        if self.collides_before(gfx, row, 8) {
            let c = choose|c: int|
                0 <= c < gfx.len() && #[trigger] self.toggles_before(c, row, 8) && gfx[c] == 1;
            assert(self.toggles_before(c, row + 1, 0));
        }
        if self.collides_before(gfx, row + 1, 0) {
            let c = choose|c: int|
                0 <= c < gfx.len() && #[trigger] self.toggles_before(c, row + 1, 0) && gfx[c]
                    == 1;
            assert(self.toggles_before(c, row, 8));
        }
    }

    /// After the last row the whole sprite is drawn.
    proof fn lemma_draw_end(self, gfx: Seq<u8>)
        ensures
            self.drawn_before(gfx, self.rows.len() as int, 0) == self.drawn(gfx),
            self.collides_before(gfx, self.rows.len() as int, 0) == self.collides(gfx),
    {
        let n = self.rows.len() as int;
        assert forall|c: int| self.toggles_before(c, n, 0) == self.toggles(c) by {}
        assert(self.drawn_before(gfx, n, 0) =~= self.drawn(gfx));
        if self.collides_before(gfx, n, 0) {
            let c = choose|c: int|
                0 <= c < gfx.len() && #[trigger] self.toggles_before(c, n, 0) && gfx[c] == 1;
            assert(self.toggles(c));
        }
        if self.collides(gfx) {
            let c = choose|c: int| 0 <= c < gfx.len() && #[trigger] self.toggles(c) && gfx[c] == 1;
            assert(self.toggles_before(c, n, 0));
        }
    }
}

/// Every bit of a row of ones is set.
pub proof fn lemma_bits_of_full_row(col: int)
    requires
        0 <= col < 8,
    ensures
        bit_at(0xFF, col),
{
    let c = col as u8;
    assert(c < 8 ==> 0xFFu8 & (0x80u8 >> c) != 0) by (bit_vector);
}

/// A set sprite cell toggles the framebuffer cell that it lands on, and a
/// clear one does not: drawing wraps round the framebuffer and never leaves it.
pub proof fn lemma_sprite_cell_wraps(sprite: Sprite, row: int, col: int)
    requires
        0 <= row < sprite.rows.len() <= 32,
        0 <= col < 8,
    ensures
        0 <= cell_of(sprite.vx, sprite.vy, row, col) < 2048,
        sprite.toggles(cell_of(sprite.vx, sprite.vy, row, col)) == bit_at(sprite.rows[row], col),
{
    lemma_cell_offset(sprite.vx, sprite.vy, row, col);
}

/// A framebuffer cell that the sprite toggles is the landing place of a set
/// sprite cell.
pub proof fn lemma_toggled_cell_is_sprite_cell(sprite: Sprite, c: int)
    requires
        0 <= c < 2048,
        sprite.toggles(c),
    ensures
        ({
            let row = offset_of(sprite.vx, sprite.vy, c) / 64;
            let col = offset_of(sprite.vx, sprite.vy, c) % 64;
            &&& 0 <= row < sprite.rows.len()
            &&& 0 <= col < 8
            &&& bit_at(sprite.rows[row], col)
            &&& c == cell_of(sprite.vx, sprite.vy, row, col)
        }),
{
    lemma_offset_cell(sprite.vx, sprite.vy, c);
}

/// Drawing a sprite twice restores the framebuffer.
pub proof fn lemma_drawn_twice(sprite: Sprite, gfx: Seq<u8>)
    ensures
        sprite.drawn(sprite.drawn(gfx)) == gfx,
{
    assert forall|c: int| 0 <= c < gfx.len() implies sprite.drawn(sprite.drawn(gfx))[c]
        == gfx[c] by {
        lemma_toggle_twice(gfx[c]);
    }
    assert(sprite.drawn(sprite.drawn(gfx)) =~= gfx);
}

/// The second of two draws of a sprite collides exactly if the sprite
/// toggles a cell that was dark before the first.
pub proof fn lemma_second_draw_collides(sprite: Sprite, gfx: Seq<u8>)
    ensures
        sprite.collides(sprite.drawn(gfx)) <==> exists|c: int|
            0 <= c < gfx.len() && #[trigger] sprite.toggles(c) && gfx[c] == 0,
{
    let once = sprite.drawn(gfx);
    assert forall|c: int| 0 <= c < gfx.len() && sprite.toggles(c) implies (once[c] == 1 <==> gfx[c]
        == 0) by {
        lemma_toggle_to_one(gfx[c]);
    }
    if sprite.collides(once) {
        let c = choose|c: int| 0 <= c < once.len() && #[trigger] sprite.toggles(c) && once[c] == 1;
        assert(sprite.toggles(c) && gfx[c] == 0);
    }
    if exists|c: int| 0 <= c < gfx.len() && #[trigger] sprite.toggles(c) && gfx[c] == 0 {
        let c = choose|c: int| 0 <= c < gfx.len() && #[trigger] sprite.toggles(c) && gfx[c] == 0;
        assert(sprite.toggles(c) && once[c] == 1);
    }
}

/// The sprite of `n` rows that lies in `memory` from `index` on, placed at
/// column `vx`, row `vy`.
pub open spec fn sprite_at(memory: Seq<u8>, index: int, n: int, vx: u8, vy: u8) -> Sprite {
    Sprite { rows: Seq::new(n as nat, |r: int| memory[index + r]), vx: vx as int, vy: vy as int }
}

/// Draws a sprite into the framebuffer and tells whether it hit a lit cell.
pub(crate) fn draw_sprite(
    gfx: &mut [u8; 2048],
    memory: &[u8; 4096],
    index: usize,
    n: u8,
    vx: u8,
    vy: u8,
) -> (collision: bool)
    requires
        n < 16,
        n == 0 || index + n <= 4096,
    ensures
        final(gfx)@ == sprite_at(memory@, index as int, n as int, vx, vy).drawn(old(gfx)@),
        collision == sprite_at(memory@, index as int, n as int, vx, vy).collides(old(gfx)@),
{
    let ghost sprite = sprite_at(memory@, index as int, n as int, vx, vy);
    let ghost before = gfx@;
    let mut collision: bool = false;
    let mut row: usize = 0;
    proof {
        sprite.lemma_draw_start(before);
    }
    while row < n as usize
        invariant
            n < 16,
            n == 0 || index + n <= 4096,
            row <= n,
            sprite == sprite_at(memory@, index as int, n as int, vx, vy),
            before.len() == 2048,
            gfx@ == sprite.drawn_before(before, row as int, 0),
            collision == sprite.collides_before(before, row as int, 0),
        decreases n - row,
    {
        let bits: u8 = memory[index + row];
        let mut col: usize = 0;
        while col < 8
            invariant
                n < 16,
                row < n,
                col <= 8,
                index + n <= 4096,
                bits == sprite.rows[row as int],
                sprite == sprite_at(memory@, index as int, n as int, vx, vy),
                before.len() == 2048,
                gfx@ == sprite.drawn_before(before, row as int, col as int),
                collision == sprite.collides_before(before, row as int, col as int),
            decreases 8 - col,
        {
            let cell: usize = (vx as usize + col + (vy as usize + row) * 64) % 2048;
            let mask: u8 = 0x80u8 >> (col as u8);
            proof {
                sprite.lemma_draw_step(before, row as int, col as int);
            }
            if bits & mask != 0 {
                if gfx[cell] == 1 {
                    collision = true;
                }
                gfx[cell] = gfx[cell] ^ 1;
            }
            col += 1;
        }
        proof {
            sprite.lemma_draw_next_row(before, row as int);
        }
        row += 1;
    }
    proof {
        sprite.lemma_draw_end(before);
    }
    collision
}

} // verus!
