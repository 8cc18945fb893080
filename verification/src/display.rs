//! The framebuffer: a fixed 64x32 grid of boolean pixels, row-major.
//! It is mutated only by `clear` (all pixels off) and `draw`, an
//! XOR-blit that reports whether any pixel went from on to off
//! (a "collision").  Sprite rows are bytes, most significant bit
//! leftmost; pixels falling outside the grid are clipped, not wrapped.

use vstd::prelude::*;

verus! {

/// Width of the framebuffer in pixels.
pub const SCREEN_WIDTH: usize = 64;

/// Height of the framebuffer in pixels.
pub const SCREEN_HEIGHT: usize = 32;

/// A framebuffer with all pixels off.
pub open spec fn all_off() -> Seq<bool> {
    Seq::new(2048, |i: int| false)
}

/// Bit `col` of a sprite row, counting the most significant bit as
/// column 0 (the leftmost pixel).
pub open spec fn sprite_bit(line: u8, col: int) -> bool {
    (line >> ((7 - col) as u8)) & 1 == 1
}

/// Whether the blit of sprite `s` at position (`x`, `y`) toggles the
/// pixel at grid position (`px`, `py`).
pub open spec fn flips(px: int, py: int, x: int, y: int, s: Seq<u8>) -> bool {
    &&& x <= px < x + 8
    &&& y <= py < y + s.len()
    &&& sprite_bit(s[py - y], px - x)
}

/// The framebuffer after XOR-blitting sprite `s` at (`x`, `y`) onto `p`:
/// every covered in-grid pixel whose sprite bit is set is toggled, all
/// other pixels keep their value.
pub open spec fn blit(p: Seq<bool>, x: int, y: int, s: Seq<u8>) -> Seq<bool> {
    Seq::new(p.len(), |i: int| if flips(i % 64, i / 64, x, y, s) { !p[i] } else { p[i] })
}

/// Whether XOR-blitting sprite `s` at (`x`, `y`) onto `p` turns some
/// pixel from on to off.
pub open spec fn blit_collision(p: Seq<bool>, x: int, y: int, s: Seq<u8>) -> bool {
    exists|i: int| 0 <= i < p.len() && p[i] && flips(i % 64, i / 64, x, y, s)
}

/// `flips`, cut off after the sprite cells processed before row `r`,
/// column `c` (in row-major sprite order).
spec fn flips_before(px: int, py: int, x: int, y: int, s: Seq<u8>, r: int, c: int) -> bool {
    &&& flips(px, py, x, y, s)
    &&& (py - y < r || (py - y == r && px - x < c))
}

/// The partial blit covering the sprite cells before row `r`, column `c`.
spec fn blit_upto(p: Seq<bool>, x: int, y: int, s: Seq<u8>, r: int, c: int) -> Seq<bool> {
    Seq::new(
        p.len(),
        |i: int| if flips_before(i % 64, i / 64, x, y, s, r, c) { !p[i] } else { p[i] },
    )
}

/// The partial collision signal covering the sprite cells before
/// row `r`, column `c`.
spec fn collision_upto(p: Seq<bool>, x: int, y: int, s: Seq<u8>, r: int, c: int) -> bool {
    exists|i: int| 0 <= i < p.len() && p[i] && flips_before(i % 64, i / 64, x, y, s, r, c)
}

/// Row-major encoding of grid coordinates is a bijection onto [0, 2048).
proof fn lemma_grid_index(px: int, py: int)
    by (nonlinear_arith)
    requires
        0 <= px < 64,
        0 <= py < 32,
    ensures
        (px + py * 64) % 64 == px,
        (px + py * 64) / 64 == py,
        0 <= px + py * 64 < 2048,
{
}

/// Processing the sprite cell at row `r`, column `c` when its bit is
/// set and it lands in the grid toggles exactly one pixel, and extends
/// the collision signal by whether that pixel was on.
proof fn lemma_col_step_flip(p: Seq<bool>, x: int, y: int, s: Seq<u8>, r: int, c: int)
    requires
        p.len() == 2048,
        0 <= r < s.len(),
        0 <= c < 8,
        0 <= x,
        0 <= y,
        x + c < 64,
        y + r < 32,
        sprite_bit(s[r], c),
    ensures
        blit_upto(p, x, y, s, r, c)[x + c + (y + r) * 64] == p[x + c + (y + r) * 64],
        blit_upto(p, x, y, s, r, c + 1) == blit_upto(p, x, y, s, r, c).update(
            x + c + (y + r) * 64,
            !p[x + c + (y + r) * 64],
        ),
        collision_upto(p, x, y, s, r, c + 1) == (collision_upto(p, x, y, s, r, c) || p[x + c + (y
            + r) * 64]),
{
    let idx = x + c + (y + r) * 64;
    lemma_grid_index(x + c, y + r);
    assert(blit_upto(p, x, y, s, r, c + 1) =~= blit_upto(p, x, y, s, r, c).update(
        idx,
        !p[idx],
    )) by {
        assert forall|i: int| 0 <= i < 2048 implies #[trigger] blit_upto(p, x, y, s, r, c + 1)[i]
            == blit_upto(p, x, y, s, r, c).update(idx, !p[idx])[i] by {
            assert(i == 64 * (i / 64) + i % 64);
            if i != idx {
                assert(flips_before(i % 64, i / 64, x, y, s, r, c + 1) == flips_before(
                    i % 64,
                    i / 64,
                    x,
                    y,
                    s,
                    r,
                    c,
                ));
            }
        }
    }
    assert(collision_upto(p, x, y, s, r, c + 1) == (collision_upto(p, x, y, s, r, c)
        || p[idx])) by {
        if collision_upto(p, x, y, s, r, c + 1) {
            let i = choose|i: int|
                0 <= i < p.len() && p[i] && flips_before(i % 64, i / 64, x, y, s, r, c + 1);
            assert(i == 64 * (i / 64) + i % 64);
            if !(i / 64 - y < r || (i / 64 - y == r && i % 64 - x < c)) {
                assert(i == idx);
            }
            assert(collision_upto(p, x, y, s, r, c) || p[idx]);
        }
        if collision_upto(p, x, y, s, r, c) {
            let i = choose|i: int|
                0 <= i < p.len() && p[i] && flips_before(i % 64, i / 64, x, y, s, r, c);
            assert(p[i] && flips_before(i % 64, i / 64, x, y, s, r, c + 1));
        }
        if p[idx] {
            assert(p[idx] && flips_before(idx % 64, idx / 64, x, y, s, r, c + 1));
        }
    }
}

/// Processing a sprite cell whose bit is clear, or which falls outside
/// the grid, changes nothing.
proof fn lemma_col_step_noflip(p: Seq<bool>, x: int, y: int, s: Seq<u8>, r: int, c: int)
    requires
        p.len() == 2048,
        0 <= r < s.len(),
        0 <= c < 8,
        0 <= x,
        0 <= y,
        !(sprite_bit(s[r], c) && x + c < 64 && y + r < 32),
    ensures
        blit_upto(p, x, y, s, r, c + 1) == blit_upto(p, x, y, s, r, c),
        collision_upto(p, x, y, s, r, c + 1) == collision_upto(p, x, y, s, r, c),
{
    assert forall|i: int| 0 <= i < 2048 implies #[trigger] blit_upto(p, x, y, s, r, c + 1)[i]
        == blit_upto(p, x, y, s, r, c)[i] by {
        assert(i == 64 * (i / 64) + i % 64);
    }
    assert(blit_upto(p, x, y, s, r, c + 1) =~= blit_upto(p, x, y, s, r, c));
    assert(collision_upto(p, x, y, s, r, c + 1) == collision_upto(p, x, y, s, r, c)) by {
        if collision_upto(p, x, y, s, r, c + 1) {
            let i = choose|i: int|
                0 <= i < p.len() && p[i] && flips_before(i % 64, i / 64, x, y, s, r, c + 1);
            assert(p[i] && flips_before(i % 64, i / 64, x, y, s, r, c));
        }
        if collision_upto(p, x, y, s, r, c) {
            let i = choose|i: int|
                0 <= i < p.len() && p[i] && flips_before(i % 64, i / 64, x, y, s, r, c);
            assert(p[i] && flips_before(i % 64, i / 64, x, y, s, r, c + 1));
        }
    }
}

/// Finishing a sprite row is the same as starting the next one.
proof fn lemma_row_step(p: Seq<bool>, x: int, y: int, s: Seq<u8>, r: int)
    requires
        p.len() == 2048,
        0 <= r,
    ensures
        blit_upto(p, x, y, s, r, 8) == blit_upto(p, x, y, s, r + 1, 0),
        collision_upto(p, x, y, s, r, 8) == collision_upto(p, x, y, s, r + 1, 0),
{
    assert forall|i: int| 0 <= i < 2048 implies #[trigger] blit_upto(p, x, y, s, r, 8)[i]
        == blit_upto(p, x, y, s, r + 1, 0)[i] by {}
    assert(blit_upto(p, x, y, s, r, 8) =~= blit_upto(p, x, y, s, r + 1, 0));
    assert(collision_upto(p, x, y, s, r, 8) == collision_upto(p, x, y, s, r + 1, 0)) by {
        if collision_upto(p, x, y, s, r, 8) {
            let i = choose|i: int|
                0 <= i < p.len() && p[i] && flips_before(i % 64, i / 64, x, y, s, r, 8);
            assert(p[i] && flips_before(i % 64, i / 64, x, y, s, r + 1, 0));
        }
        if collision_upto(p, x, y, s, r + 1, 0) {
            let i = choose|i: int|
                0 <= i < p.len() && p[i] && flips_before(i % 64, i / 64, x, y, s, r + 1, 0);
            assert(p[i] && flips_before(i % 64, i / 64, x, y, s, r, 8));
        }
    }
}

/// The partial blit over all sprite rows is the full blit.
proof fn lemma_blit_complete(p: Seq<bool>, x: int, y: int, s: Seq<u8>)
    requires
        p.len() == 2048,
    ensures
        blit_upto(p, x, y, s, s.len() as int, 0) == blit(p, x, y, s),
        collision_upto(p, x, y, s, s.len() as int, 0) == blit_collision(p, x, y, s),
{
    assert forall|i: int| 0 <= i < 2048 implies #[trigger] blit_upto(p, x, y, s, s.len() as int, 0)[i]
        == blit(p, x, y, s)[i] by {}
    assert(blit_upto(p, x, y, s, s.len() as int, 0) =~= blit(p, x, y, s));
    assert(collision_upto(p, x, y, s, s.len() as int, 0) == blit_collision(p, x, y, s)) by {
        if collision_upto(p, x, y, s, s.len() as int, 0) {
            let i = choose|i: int|
                0 <= i < p.len() && p[i] && flips_before(i % 64, i / 64, x, y, s, s.len() as int, 0);
            assert(p[i] && flips(i % 64, i / 64, x, y, s));
        }
        if blit_collision(p, x, y, s) {
            let i = choose|i: int| 0 <= i < p.len() && p[i] && flips(i % 64, i / 64, x, y, s);
            assert(p[i] && flips_before(i % 64, i / 64, x, y, s, s.len() as int, 0));
        }
    }
}

/// Law: the XOR-blit is its own inverse.  Drawing the same sprite twice
/// at the same position restores every pixel to its prior value.
pub proof fn lemma_blit_self_inverse(p: Seq<bool>, x: int, y: int, s: Seq<u8>)
    requires
        p.len() == 2048,
    ensures
        blit(blit(p, x, y, s), x, y, s) == p,
{
    assert(blit(blit(p, x, y, s), x, y, s) =~= p);
}

/// Law: drawing a sprite on an all-off framebuffer and then drawing it
/// again reports a collision, provided some sprite bit lands in the
/// grid (a sprite with no visible bit toggles nothing and so cannot
/// collide).
pub proof fn lemma_second_draw_collides(x: int, y: int, s: Seq<u8>)
    requires
        exists|i: int| 0 <= i < 2048 && flips(#[trigger] (i % 64), i / 64, x, y, s),
    ensures
        blit_collision(blit(all_off(), x, y, s), x, y, s),
{
    let i = choose|i: int| 0 <= i < 2048 && flips(#[trigger] (i % 64), i / 64, x, y, s);
    assert(blit(all_off(), x, y, s)[i]);
    assert(blit(all_off(), x, y, s).len() == 2048);
}

/// The framebuffer.  `pixels` is row-major: the pixel at (`x`, `y`) is
/// at index `x + y * 64`.
pub struct Display {
    pub pixels: Vec<bool>,
}

impl Display {
    /// Well-formed: exactly one entry per grid cell.
    pub open spec fn wf(&self) -> bool {
        self.pixels@.len() == 2048
    }

    /// A fresh framebuffer with all pixels off.
    pub fn new() -> (r: Display)
        ensures
            r.wf(),
            r.pixels@ == all_off(),
    {
        let mut pixels: Vec<bool> = Vec::new();
        let mut i: usize = 0;
        while i < 2048
            invariant
                i <= 2048,
                pixels@.len() == i,
                forall|j: int| 0 <= j < i ==> !pixels@[j],
            decreases 2048 - i,
        {
            pixels.push(false);
            i = i + 1;
        }
        proof {
            assert(pixels@ =~= all_off());
        }
        Display { pixels }
    }

    /// Turns every pixel off.
    pub fn clear(&mut self)
        ensures
            final(self).wf(),
            final(self).pixels@ == all_off(),
    {
        let fresh = Display::new();
        self.pixels = fresh.pixels;
    }

    /// Writes one pixel.
    pub fn set_pixel(&mut self, x: usize, y: usize, value: bool)
        requires
            old(self).wf(),
            x < 64,
            y < 32,
        ensures
            final(self).wf(),
            final(self).pixels@ == old(self).pixels@.update(x + y * 64, value),
    {
        proof {
            lemma_grid_index(x as int, y as int);
        }
        let index = x + y * SCREEN_WIDTH;
        self.pixels.set(index, value);
    }

    /// Reads one pixel.
    pub fn get_pixel(&self, x: usize, y: usize) -> (r: bool)
        requires
            self.wf(),
            x < 64,
            y < 32,
        ensures
            r == self.pixels@[x + y * 64],
    {
        proof {
            lemma_grid_index(x as int, y as int);
        }
        self.pixels[x + y * SCREEN_WIDTH]
    }

    /// XORs a value into one pixel.
    pub fn xor_pixel(&mut self, x: usize, y: usize, new_value: bool)
        requires
            old(self).wf(),
            x < 64,
            y < 32,
        ensures
            final(self).wf(),
            final(self).pixels@ == old(self).pixels@.update(
                x + y * 64,
                old(self).pixels@[x + y * 64] ^ new_value,
            ),
    {
        let current = self.get_pixel(x, y);
        self.set_pixel(x, y, current ^ new_value);
    }

    /// XOR-blits a sprite at (`x`, `y`), clipping at the grid edges, and
    /// reports 1 exactly when some pixel went from on to off.
    pub fn draw(&mut self, x: usize, y: usize, sprite: &[u8]) -> (collision: u8)
        requires
            old(self).wf(),
        ensures
            final(self).wf(),
            final(self).pixels@ == blit(old(self).pixels@, x as int, y as int, sprite@),
            collision == if blit_collision(old(self).pixels@, x as int, y as int, sprite@) {
                1u8
            } else {
                0u8
            },
    {
        let ghost p0 = self.pixels@;
        let ghost gx = x as int;
        let ghost gy = y as int;
        let ghost s = sprite@;
        let mut hit: u8 = 0;
        let mut row: usize = 0;
        proof {
            assert(blit_upto(p0, gx, gy, s, 0, 0) =~= p0);
            assert(!collision_upto(p0, gx, gy, s, 0, 0));
        }
        while row < sprite.len()
            invariant
                row <= s.len(),
                s == sprite@,
                p0.len() == 2048,
                self.pixels@ == blit_upto(p0, gx, gy, s, row as int, 0),
                hit == 1 <==> collision_upto(p0, gx, gy, s, row as int, 0),
                hit == 0 || hit == 1,
                gx == x as int,
                gy == y as int,
            decreases s.len() - row,
        {
            let line = sprite[row];
            let mut col: usize = 0;
            while col < 8
                invariant
                    col <= 8,
                    row < s.len(),
                    s == sprite@,
                    line == s[row as int],
                    p0.len() == 2048,
                    self.pixels@ == blit_upto(p0, gx, gy, s, row as int, col as int),
                    hit == 1 <==> collision_upto(p0, gx, gy, s, row as int, col as int),
                    hit == 0 || hit == 1,
                    gx == x as int,
                    gy == y as int,
                decreases 8 - col,
            {
                let shift: u8 = (7 - col) as u8;
                let bit = (line >> shift) & 1 == 1;
                if bit && x < SCREEN_WIDTH && col < SCREEN_WIDTH - x && y < SCREEN_HEIGHT && row
                    < SCREEN_HEIGHT - y {
                    let px = x + col;
                    let py = y + row;
                    proof {
                        lemma_grid_index(px as int, py as int);
                        lemma_col_step_flip(p0, gx, gy, s, row as int, col as int);
                    }
                    let index = px + py * SCREEN_WIDTH;
                    let current = self.pixels[index];
                    if current {
                        hit = 1;
                    }
                    self.pixels.set(index, !current);
                } else {
                    proof {
                        lemma_col_step_noflip(p0, gx, gy, s, row as int, col as int);
                    }
                }
                col = col + 1;
            }
            proof {
                lemma_row_step(p0, gx, gy, s, row as int);
            }
            row = row + 1;
        }
        proof {
            lemma_blit_complete(p0, gx, gy, s);
        }
        hit
    }
}

} // verus!
