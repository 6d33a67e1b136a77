//! The monochrome display buffer: a fixed 64x32 grid of cells, row-major,
//! with XOR-sprite compositing and collision detection.
//!
//! Sprites are 8 cells wide and up to 15 rows tall; each row is one byte,
//! most-significant bit leftmost. Rows that fall below the bottom edge and
//! columns that cross the right edge are clipped, never wrapped. A draw
//! reports a collision when it flips at least one cell from set to unset.

use vstd::prelude::*;

verus! {

pub const DISPLAY_WIDTH: usize = 64;

pub const DISPLAY_HEIGHT: usize = 32;

pub const DISPLAY_SIZE: usize = 64 * 32;

/// Bit `c` of sprite row byte `b`, counting the most significant bit as
/// column 0.
pub open spec fn sprite_bit(b: u8, c: int) -> bool {
    (b >> ((7 - c) as u8)) & 1 == 1
}

/// Whether drawing an 8-wide, `h`-tall sprite at `(x, y)` touches grid cell
/// `p` (row-major index): the cell's row lies in the sprite's rows and its
/// column in the sprite's columns. Cells past the right or bottom edge do not
/// exist, so the sprite is clipped there.
pub open spec fn draw_targets(x: int, y: int, h: int, p: int) -> bool {
    let row = p / 64;
    let col = p % 64;
    y <= row < y + h && x <= col < x + 8
}

/// The value of grid cell `p` after drawing sprite `s` at `(x, y)`: the
/// sprite bit is XORed into every targeted cell; all others keep their value.
pub open spec fn drawn_cell(g: Seq<bool>, x: int, y: int, h: int, s: Seq<u8>, p: int) -> bool {
    if draw_targets(x, y, h, p) {
        g[p] != sprite_bit(s[p / 64 - y], p % 64 - x)
    } else {
        g[p]
    }
}

/// The whole grid after drawing sprite `s` at `(x, y)` with height `h`.
pub open spec fn grid_after_draw(g: Seq<bool>, x: int, y: int, h: int, s: Seq<u8>) -> Seq<bool> {
    Seq::new(g.len(), |p: int| drawn_cell(g, x, y, h, s, p))
}

/// Whether drawing sprite `s` at `(x, y)` flips some cell from set to unset:
/// a set sprite bit lands on a cell that is already set.
pub open spec fn draw_collides(g: Seq<bool>, x: int, y: int, h: int, s: Seq<u8>) -> bool {
    exists|p: int|
        0 <= p < g.len() && #[trigger] draw_targets(x, y, h, p) && sprite_bit(
            s[p / 64 - y],
            p % 64 - x,
        ) && g[p]
}

/// Mid-draw version of [`draw_targets`]: `rows` full sprite rows and the
/// first `cols` columns of row `rows` have been composited.
spec fn targets_partial(x: int, y: int, rows: int, cols: int, p: int) -> bool {
    let row = p / 64;
    let col = p % 64;
    (y <= row < y + rows && x <= col < x + 8) || (row == y + rows && x <= col < x + cols)
}

/// The grid mid-draw, with the cells named by [`targets_partial`] already
/// XORed.
spec fn grid_mid(g: Seq<bool>, x: int, y: int, s: Seq<u8>, rows: int, cols: int) -> Seq<bool> {
    Seq::new(
        g.len(),
        |p: int|
            if targets_partial(x, y, rows, cols, p) {
                g[p] != sprite_bit(s[p / 64 - y], p % 64 - x)
            } else {
                g[p]
            },
    )
}

/// An empty grid: every cell unset.
pub open spec fn cleared_grid() -> Seq<bool> {
    Seq::new(2048, |p: int| false)
}

pub struct Display {
    pub display: Vec<bool>,
}

impl Display {
    /// The grid always holds exactly width times height cells.
    pub open spec fn wf(self) -> bool {
        self.display@.len() == 2048
    }

    /// A fresh display with every cell unset.
    pub fn new() -> (r: Display)
        ensures
            r.wf(),
            r.display@ == cleared_grid(),
    {
        Display { display: blank_grid() }
    }

    /// Reset every cell to unset.
    pub fn clear(&mut self)
        ensures
            final(self).wf(),
            final(self).display@ == cleared_grid(),
    {
        self.display = blank_grid();
    }

    /// Write one cell; the index is reduced modulo the grid size.
    pub fn set_pixel(&mut self, pixel_index: usize, value: bool)
        requires
            old(self).wf(),
        ensures
            final(self).wf(),
            final(self).display@ == old(self).display@.update(
                (pixel_index % 2048) as int,
                value,
            ),
    {
        let actual_index = pixel_index % DISPLAY_SIZE;
        self.display.set(actual_index, value);
    }

    /// Read one cell; the index is reduced modulo the grid size.
    pub fn get_pixel(&self, pixel_index: usize) -> (r: bool)
        requires
            self.wf(),
        ensures
            r == self.display@[(pixel_index % 2048) as int],
    {
        let actual_index = pixel_index % DISPLAY_SIZE;
        self.display[actual_index]
    }

    /// Composite a sprite into the grid at `(x_index, y_index)`: XOR each of
    /// the 8 bits of each of the first `height` bytes of `sprite` into the
    /// corresponding cell, clipping at the right and bottom edges, and report
    /// whether any cell flipped from set to unset.
    #[verifier::loop_isolation(false)]
    pub fn draw_sprite(&mut self, x_index: usize, y_index: usize, height: u8, sprite: Vec<u8>) -> (collision:
        bool)
        requires
            old(self).wf(),
            sprite@.len() >= height as int,
        ensures
            final(self).wf(),
            final(self).display@ == grid_after_draw(
                old(self).display@,
                x_index as int,
                y_index as int,
                height as int,
                sprite@,
            ),
            collision == draw_collides(
                old(self).display@,
                x_index as int,
                y_index as int,
                height as int,
                sprite@,
            ),
    {
        let ghost g0 = self.display@;
        let ghost xi = x_index as int;
        let ghost yi = y_index as int;
        let ghost hi = height as int;
        let ghost s = sprite@;
        let mut collision = false;
        let mut r: usize = 0;
        while r < height as usize
            invariant
                r <= height as usize,
                self.wf(),
                self.display@ == grid_mid(g0, xi, yi, s, r as int, 0),
                collision ==> draw_collides(g0, xi, yi, hi, s),
                !collision ==> forall|p: int|
                    (0 <= p < 2048 && #[trigger] targets_partial(xi, yi, r as int, 0, p)
                        && sprite_bit(s[p / 64 - yi], p % 64 - xi)) ==> !g0[p],
            decreases height as usize - r,
        {
            if y_index < 32 && y_index + r < 32 {
                let row_y = y_index + r;
                let byte = sprite[r];
                let mut c: usize = 0;
                while c < 8
                    invariant
                        c <= 8,
                        r < height as usize,
                        row_y == y_index + r,
                        row_y < 32,
                        byte == s[r as int],
                        self.wf(),
                        self.display@ == grid_mid(g0, xi, yi, s, r as int, c as int),
                        collision ==> draw_collides(g0, xi, yi, hi, s),
                        !collision ==> forall|p: int|
                            (0 <= p < 2048 && #[trigger] targets_partial(xi, yi, r as int, c as int, p)
                                && sprite_bit(s[p / 64 - yi], p % 64 - xi)) ==> !g0[p],
                    decreases 8 - c,
                {
                    if x_index < 64 && x_index + c < 64 {
                        let col_x = x_index + c;
                        let idx = row_y * 64 + col_x;
                        proof {
                            assert(idx < 2048);
                            vstd::arithmetic::div_mod::lemma_fundamental_div_mod_converse(
                                idx as int,
                                64,
                                row_y as int,
                                col_x as int,
                            );
                        }
                        let bit = (byte >> ((7 - c) as u8)) & 1 == 1;
                        let cur = self.display[idx];
                        proof {
                            assert(!targets_partial(xi, yi, r as int, c as int, idx as int));
                            assert(cur == g0[idx as int]);
                            assert(bit == sprite_bit(s[r as int], c as int));
                        }
                        if bit && cur {
                            collision = true;
                            proof {
                                assert(draw_targets(xi, yi, hi, idx as int));
                                assert(draw_collides(g0, xi, yi, hi, s));
                            }
                        }
                        self.display.set(idx, cur != bit);
                        proof {
                            assert forall|p: int| 0 <= p < 2048 implies self.display@[p]
                                == #[trigger] grid_mid(g0, xi, yi, s, r as int, c as int + 1)[p] by {
                                vstd::arithmetic::div_mod::lemma_fundamental_div_mod(p, 64);
                                if p != idx {
                                    assert(targets_partial(xi, yi, r as int, c as int + 1, p)
                                        == targets_partial(xi, yi, r as int, c as int, p));
                                }
                            }
                            assert(self.display@ =~= grid_mid(g0, xi, yi, s, r as int, c as int + 1));
                            if !collision {
                                assert forall|p: int|
                                    (0 <= p < 2048 && #[trigger] targets_partial(
                                        xi,
                                        yi,
                                        r as int,
                                        c as int + 1,
                                        p,
                                    ) && sprite_bit(s[p / 64 - yi], p % 64 - xi)) implies !g0[p] by {
                                    vstd::arithmetic::div_mod::lemma_fundamental_div_mod(p, 64);
                                    if p != idx {
                                        assert(targets_partial(xi, yi, r as int, c as int, p));
                                    }
                                }
                            }
                        }
                    } else {
                        proof {
                            assert forall|p: int| 0 <= p < 2048 implies targets_partial(
                                xi,
                                yi,
                                r as int,
                                c as int + 1,
                                p,
                            ) == targets_partial(xi, yi, r as int, c as int, p) by {
                                vstd::arithmetic::div_mod::lemma_fundamental_div_mod(p, 64);
                            }
                            assert(self.display@ =~= grid_mid(g0, xi, yi, s, r as int, c as int + 1));
                            if !collision {
                                assert forall|p: int|
                                    (0 <= p < 2048 && #[trigger] targets_partial(
                                        xi,
                                        yi,
                                        r as int,
                                        c as int + 1,
                                        p,
                                    ) && sprite_bit(s[p / 64 - yi], p % 64 - xi)) implies !g0[p] by {
                                    vstd::arithmetic::div_mod::lemma_fundamental_div_mod(p, 64);
                                    assert(targets_partial(xi, yi, r as int, c as int, p));
                                }
                            }
                        }
                    }
                    c += 1;
                }
                proof {
                    assert forall|p: int| 0 <= p < 2048 implies targets_partial(
                        xi,
                        yi,
                        r as int + 1,
                        0,
                        p,
                    ) == targets_partial(xi, yi, r as int, 8, p) by {
                        vstd::arithmetic::div_mod::lemma_fundamental_div_mod(p, 64);
                    }
                    assert(self.display@ =~= grid_mid(g0, xi, yi, s, r as int + 1, 0));
                    if !collision {
                        assert forall|p: int|
                            (0 <= p < 2048 && #[trigger] targets_partial(xi, yi, r as int + 1, 0, p)
                                && sprite_bit(s[p / 64 - yi], p % 64 - xi)) implies !g0[p] by {
                            vstd::arithmetic::div_mod::lemma_fundamental_div_mod(p, 64);
                            assert(targets_partial(xi, yi, r as int, 8, p));
                        }
                    }
                }
            } else {
                proof {
                    assert forall|p: int| 0 <= p < 2048 implies targets_partial(
                        xi,
                        yi,
                        r as int + 1,
                        0,
                        p,
                    ) == targets_partial(xi, yi, r as int, 0, p) by {
                        vstd::arithmetic::div_mod::lemma_fundamental_div_mod(p, 64);
                        assert(p / 64 < 32) by {
                            vstd::arithmetic::div_mod::lemma_div_is_ordered(p, 2047, 64);
                        }
                    }
                    assert(self.display@ =~= grid_mid(g0, xi, yi, s, r as int + 1, 0));
                    if !collision {
                        assert forall|p: int|
                            (0 <= p < 2048 && #[trigger] targets_partial(xi, yi, r as int + 1, 0, p)
                                && sprite_bit(s[p / 64 - yi], p % 64 - xi)) implies !g0[p] by {
                            vstd::arithmetic::div_mod::lemma_fundamental_div_mod(p, 64);
                            assert(p / 64 < 32) by {
                                vstd::arithmetic::div_mod::lemma_div_is_ordered(p, 2047, 64);
                            }
                            assert(targets_partial(xi, yi, r as int, 0, p));
                        }
                    }
                }
            }
            r += 1;
        }
        proof {
            assert forall|p: int| 0 <= p < 2048 implies grid_mid(g0, xi, yi, s, hi, 0)[p]
                == grid_after_draw(g0, xi, yi, hi, s)[p] by {
                assert(targets_partial(xi, yi, hi, 0, p) == draw_targets(xi, yi, hi, p));
            }
            assert(self.display@ =~= grid_after_draw(g0, xi, yi, hi, s));
            if !collision {
                assert forall|p: int|
                    !(0 <= p < g0.len() && #[trigger] draw_targets(xi, yi, hi, p) && sprite_bit(
                        s[p / 64 - yi],
                        p % 64 - xi,
                    ) && g0[p]) by {
                    if 0 <= p < g0.len() && draw_targets(xi, yi, hi, p) {
                        assert(targets_partial(xi, yi, hi, 0, p));
                    }
                }
                assert(!draw_collides(g0, xi, yi, hi, s));
            }
        }
        collision
    }
}

/// A grid of 2048 unset cells.
fn blank_grid() -> (v: Vec<bool>)
    ensures
        v@ == cleared_grid(),
{
    let mut v: Vec<bool> = Vec::new();
    while v.len() < DISPLAY_SIZE
        invariant
            v@.len() <= 2048,
            forall|p: int| 0 <= p < v@.len() ==> !v@[p],
        decreases 2048 - v@.len(),
    {
        v.push(false);
    }
    proof {
        assert(v@ =~= cleared_grid());
    }
    v
}

/// Drawing the same sprite twice at the same coordinates restores every cell:
/// the second draw XORs each targeted cell back to its first value.
pub proof fn lemma_draw_twice_restores(g: Seq<bool>, x: int, y: int, h: int, s: Seq<u8>)
    ensures
        grid_after_draw(grid_after_draw(g, x, y, h, s), x, y, h, s) == g,
{
    let g1 = grid_after_draw(g, x, y, h, s);
    assert(grid_after_draw(g1, x, y, h, s) =~= g);
}

/// Drawing a sprite over a cleared target area reports no collision, and
/// drawing the same sprite again at the same coordinates must report one,
/// provided some set sprite bit lands inside the grid.
pub proof fn lemma_second_draw_collides(g: Seq<bool>, x: int, y: int, h: int, s: Seq<u8>)
    requires
        g.len() == 2048,
        forall|p: int|
            (0 <= p < 2048 && #[trigger] draw_targets(x, y, h, p) && sprite_bit(
                s[p / 64 - y],
                p % 64 - x,
            )) ==> !g[p],
        exists|p: int|
            0 <= p < 2048 && #[trigger] draw_targets(x, y, h, p) && sprite_bit(
                s[p / 64 - y],
                p % 64 - x,
            ),
    ensures
        !draw_collides(g, x, y, h, s),
        draw_collides(grid_after_draw(g, x, y, h, s), x, y, h, s),
{
    let g1 = grid_after_draw(g, x, y, h, s);
    let w = choose|p: int|
        0 <= p < 2048 && #[trigger] draw_targets(x, y, h, p) && sprite_bit(
            s[p / 64 - y],
            p % 64 - x,
        );
    assert(g1[w]);
    assert(0 <= w < g1.len() && draw_targets(x, y, h, w) && sprite_bit(s[w / 64 - y], w % 64 - x)
        && g1[w]);
}

} // verus!
