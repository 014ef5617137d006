//! The 64x32 monochrome framebuffer.
//!
//! Sprites are drawn by XOR with horizontal and vertical wraparound. A draw
//! reports a collision exactly when some previously-lit cell goes dark, that
//! is, a set sprite bit lands on a lit cell; lighting a dark cell is not a
//! collision.

use vstd::prelude::*;

verus! {

/// The 64x32 grid of pixels; `true` is lit.
pub struct Display {
    pixels: [[bool; 64]; 32],
}

/// The single way a draw can fail.
#[derive(Debug, Clone, Copy, PartialEq, Eq, Structural)]
pub enum DisplayError {
    /// The sprite has more than 32 rows, taller than the whole display.
    SpriteTooBig,
}

/// Bit `j` of a sprite row, most significant bit first: bit 0 is the leftmost
/// pixel of the row.
pub open spec fn sprite_bit(row: u8, j: int) -> bool {
    (row >> ((7 - j) as u8)) & 1 == 1
}

/// The column hit by bit `j` of a sprite drawn at horizontal position `vx`.
pub open spec fn col_of(vx: u8, j: int) -> int {
    (vx + j) % 64
}

/// The row hit by row `r` of a sprite drawn at vertical position `vy`.
pub open spec fn row_of(vy: u8, r: int) -> int {
    (vy + r) % 32
}

/// What a successful sprite draw does: every targeted cell is XORed with its
/// sprite bit, every other cell keeps its value, and `collided` reports
/// whether any lit cell met a set sprite bit.
pub open spec fn draw_post(
    pre: Display,
    sprite: Seq<u8>,
    vx: u8,
    vy: u8,
    post: Display,
    collided: bool,
) -> bool {
    &&& forall|r: int, j: int|
        0 <= r < sprite.len() && 0 <= j < 8 ==> post.pixel(col_of(vx, j), row_of(vy, r)) == (
        pre.pixel(col_of(vx, j), row_of(vy, r)) != sprite_bit(sprite[r], j))
    &&& forall|cx: int, cy: int|
        0 <= cx < 64 && 0 <= cy < 32 && (forall|r: int, j: int|
            0 <= r < sprite.len() && 0 <= j < 8 ==> !(col_of(vx, j) == cx && row_of(vy, r)
                == cy)) ==> post.pixel(cx, cy) == pre.pixel(cx, cy)
    &&& collided == exists|r: int, j: int|
        0 <= r < sprite.len() && 0 <= j < 8 && pre.pixel(col_of(vx, j), row_of(vy, r))
            && sprite_bit(sprite[r], j)
}

/// Adding distinct offsets below the modulus to a base lands on distinct
/// residues: sprite rows never fold onto each other, nor do row bits.
proof fn lemma_wrap_distinct(base: int, a: int, b: int, m: int)
    requires
        0 < m,
        0 <= a < m,
        0 <= b < m,
        a != b,
        0 <= base,
    ensures
        (base + a) % m != (base + b) % m,
{
    if a < b {
        vstd::arithmetic::div_mod::lemma_mod_equivalence(base + b, base + a, m);
        vstd::arithmetic::div_mod::lemma_small_mod((b - a) as nat, m as nat);
        assert(((base + b) - (base + a)) % m == b - a);
    } else {
        vstd::arithmetic::div_mod::lemma_mod_equivalence(base + a, base + b, m);
        vstd::arithmetic::div_mod::lemma_small_mod((a - b) as nat, m as nat);
        assert(((base + a) - (base + b)) % m == a - b);
    }
}

/// Drawing the same sprite twice at the same position restores every cell:
/// XOR self-cancellation. The second draw collides exactly on the sprite's
/// set bits that had landed on dark cells and lit them the first time.
pub proof fn lemma_draw_twice_cancels(
    pre: Display,
    sprite: Seq<u8>,
    vx: u8,
    vy: u8,
    mid: Display,
    post: Display,
    c1: bool,
    c2: bool,
)
    requires
        sprite.len() <= 32,
        draw_post(pre, sprite, vx, vy, mid, c1),
        draw_post(mid, sprite, vx, vy, post, c2),
    ensures
        forall|x: int, y: int| 0 <= x < 64 && 0 <= y < 32 ==> post.pixel(x, y) == pre.pixel(x, y),
        c2 == exists|r: int, j: int|
            0 <= r < sprite.len() && 0 <= j < 8 && sprite_bit(sprite[r], j) && !pre.pixel(
                col_of(vx, j),
                row_of(vy, r),
            ),
{
    assert forall|x: int, y: int| 0 <= x < 64 && 0 <= y < 32 implies post.pixel(x, y) == pre.pixel(
        x,
        y,
    ) by {
        if exists|r: int, j: int|
            0 <= r < sprite.len() && 0 <= j < 8 && col_of(vx, j) == x && row_of(vy, r) == y {
            let (r, j) = choose|r: int, j: int|
                0 <= r < sprite.len() && 0 <= j < 8 && col_of(vx, j) == x && row_of(vy, r) == y;
            assert(mid.pixel(x, y) == (pre.pixel(x, y) != sprite_bit(sprite[r], j)));
            assert(post.pixel(x, y) == (mid.pixel(x, y) != sprite_bit(sprite[r], j)));
        }
    }
    assert forall|r: int, j: int|
        0 <= r < sprite.len() && 0 <= j < 8 implies mid.pixel(col_of(vx, j), row_of(vy, r)) == (
    pre.pixel(col_of(vx, j), row_of(vy, r)) != sprite_bit(sprite[r], j)) by {
        assert(0 <= col_of(vx, j) < 64) by {
            vstd::arithmetic::div_mod::lemma_mod_bound(vx + j, 64);
        }
        assert(0 <= row_of(vy, r) < 32) by {
            vstd::arithmetic::div_mod::lemma_mod_bound(vy + r, 32);
        }
    }
}

impl Display {
    /// Whether the cell at column `x`, row `y` is lit.
    pub closed spec fn pixel(self, x: int, y: int) -> bool {
        self.pixels[y][x]
    }

    /// Create a display with every cell dark.
    pub fn new() -> (r: Display)
        ensures
            forall|x: int, y: int| 0 <= x < 64 && 0 <= y < 32 ==> !r.pixel(x, y),
    {
        Display { pixels: [[false;64];32] }
    }

    /// Set every cell dark.
    pub fn clear(&mut self)
        ensures
            forall|x: int, y: int| 0 <= x < 64 && 0 <= y < 32 ==> !final(self).pixel(x, y),
    {
        self.pixels = [[false;64];32];
    }

    /// Draw a sprite of up to 32 rows, 8 bits wide, with its top-left corner
    /// at `(vx, vy)`, wrapping around both edges; report whether any lit cell
    /// went dark.
    ///
    /// Rejects sprites taller than the display and changes nothing for them.
    pub fn draw_sprite(&mut self, sprite: &[u8], vx: u8, vy: u8) -> (r: Result<bool, DisplayError>)
        ensures
            r is Ok <==> sprite@.len() <= 32,
            sprite@.len() > 32 ==> *final(self) == *old(self) && r == Err::<bool, DisplayError>(
                DisplayError::SpriteTooBig,
            ),
            r matches Ok(collided) ==> draw_post(*old(self), sprite@, vx, vy, *final(self), collided),
    {
        if sprite.len() > 32 {
            return Err(DisplayError::SpriteTooBig);
        }
        let ghost len = sprite@.len() as int;
        let mut collision = false;
        let mut idx: usize = 0;
        while idx < sprite.len()
            invariant
                sprite@.len() <= 32,
                idx <= sprite@.len(),
                forall|rr: int, jj: int|
                    0 <= rr < idx && 0 <= jj < 8 ==> self.pixel(col_of(vx, jj), row_of(vy, rr)) == (
                    old(self).pixel(col_of(vx, jj), row_of(vy, rr)) != sprite_bit(
                        sprite@[rr],
                        jj,
                    )),
                forall|cx: int, cy: int|
                    0 <= cx < 64 && 0 <= cy < 32 && (forall|rr: int, jj: int|
                        0 <= rr < idx && 0 <= jj < 8 ==> !(col_of(vx, jj) == cx && row_of(vy, rr)
                            == cy)) ==> self.pixel(cx, cy) == old(self).pixel(cx, cy),
                collision == exists|rr: int, jj: int|
                    0 <= rr < idx && 0 <= jj < 8 && old(self).pixel(col_of(vx, jj), row_of(vy, rr))
                        && sprite_bit(sprite@[rr], jj),
            decreases sprite@.len() - idx,
        {
            let word = sprite[idx];
            let row: usize = (vy as usize + idx) % 32;
            proof {
                assert forall|rr: int| 0 <= rr < idx implies row_of(vy, rr) != row as int by {
                    lemma_wrap_distinct(vy as int, rr, idx as int, 32);
                }
            }
            let mut j: usize = 0;
            while j < 8
                invariant
                    sprite@.len() <= 32,
                    idx < sprite@.len(),
                    j <= 8,
                    word == sprite@[idx as int],
                    row as int == row_of(vy, idx as int),
                    row < 32,
                    forall|rr: int| 0 <= rr < idx ==> row_of(vy, rr) != row as int,
                    forall|rr: int, jj: int|
                        (0 <= rr < idx && 0 <= jj < 8) || (rr == idx && 0 <= jj < j) ==> self.pixel(
                            col_of(vx, jj),
                            row_of(vy, rr),
                        ) == (old(self).pixel(col_of(vx, jj), row_of(vy, rr)) != sprite_bit(
                            sprite@[rr],
                            jj,
                        )),
                    forall|cx: int, cy: int|
                        0 <= cx < 64 && 0 <= cy < 32 && (forall|rr: int, jj: int|
                            (0 <= rr < idx && 0 <= jj < 8) || (rr == idx && 0 <= jj < j) ==> !(
                            col_of(vx, jj) == cx && row_of(vy, rr) == cy)) ==> self.pixel(cx, cy)
                            == old(self).pixel(cx, cy),
                    collision == exists|rr: int, jj: int|
                        ((0 <= rr < idx && 0 <= jj < 8) || (rr == idx && 0 <= jj < j)) && old(
                            self,
                        ).pixel(col_of(vx, jj), row_of(vy, rr)) && sprite_bit(sprite@[rr], jj),
                decreases 8 - j,
            {
                let shift: u8 = (7 - j) as u8;
                let bit = (word >> shift) & 1 == 1;
                let col: usize = (vx as usize + j) % 64;
                proof {
                    assert(bit == sprite_bit(sprite@[idx as int], j as int));
                    assert(col as int == col_of(vx, j as int));
                    assert forall|jj: int| 0 <= jj < j implies col_of(vx, jj) != col as int by {
                        lemma_wrap_distinct(vx as int, jj, j as int, 64);
                    }
                }
                let cur = self.pixels[row][col];
                proof {
                    // No processed bit targets this cell: earlier rows land on
                    // other rows, earlier bits of this row on other columns.
                    assert(cur == old(self).pixel(col as int, row as int));
                }
                if cur && bit {
                    collision = true;
                }
                self.pixels[row][col] = cur != bit;
                j = j + 1;
                proof {
                    assert forall|jj: int| 0 <= jj < j implies col_of(vx, jj) != col as int || jj
                        == j - 1 by {
                        if jj < j - 1 {
                            lemma_wrap_distinct(vx as int, jj, j - 1, 64);
                        }
                    }
                }
            }
            idx = idx + 1;
        }
        Ok(collision)
    }

    /// A read-only view of the grid for an external renderer.
    pub fn state(&self) -> (r: &[[bool; 64]; 32])
        ensures
            forall|x: int, y: int| 0 <= x < 64 && 0 <= y < 32 ==> r@[y]@[x] == self.pixel(x, y),
    {
        &self.pixels
    }
}

} // verus!
