//! The monochrome display buffer and its XOR sprite blitter.
//!
//! The screen is a 64x32 grid of 1-bit pixels stored as a flat sequence of
//! 2048 bytes addressed by `y * 64 + x`, each byte 0 or 1. Sprites are drawn
//! one 8-pixel row at a time by XOR-combining the bits of a row byte (most
//! significant bit first) into the grid, wrapping horizontally at the right
//! edge and clipping rows that fall below the bottom edge. A blit reports a
//! collision when it turns some pixel from 1 to 0.
use vstd::prelude::*;

verus! {

/// Pixels per row.
pub const DISPLAY_WIDTH: usize = 64;

/// Number of rows.
pub const DISPLAY_HEIGHT: usize = 32;

/// Total number of pixels.
pub const DISPLAY_LEN: usize = 2048;

/// A well-formed screen: 2048 pixels, each 0 or 1.
pub open spec fn screen_wf(s: Seq<u8>) -> bool {
    &&& s.len() == 2048
    &&& forall|j: int| 0 <= j < 2048 ==> s[j] <= 1
}

/// Bit `i` of a sprite row byte, counted from the most significant bit, so
/// that bit 0 lands on the leftmost of the row's 8 pixels.
pub open spec fn sprite_bit(b: u8, i: int) -> bool {
    ((b >> ((7 - i) as u8)) & 1) == 1
}

/// The column hit by bit `i` of a row drawn at column `x`: columns wrap at
/// the right edge of the 64-pixel-wide screen.
pub open spec fn wrap_col(x: u8, i: int) -> int {
    if (x % 64) + i < 64 {
        (x % 64) + i
    } else {
        (x % 64) + i - 64
    }
}

/// The inverse of `wrap_col`: which sprite bit (0..8) would land on column
/// `c` of a row drawn at column `x`; 8 or more when none does.
pub open spec fn col_offset(x: u8, c: int) -> int {
    if c >= (x % 64) {
        c - (x % 64)
    } else {
        c + 64 - (x % 64)
    }
}

/// XOR with a set sprite bit: a 0/1 pixel is inverted.
pub open spec fn flip_pixel(p: u8) -> u8 {
    if p == 1 {
        0u8
    } else {
        1u8
    }
}

/// The screen after one sprite row byte `b` is XOR-blitted at `(x, y)`:
/// within row `y`, the eight wrapped columns covered by the sprite are
/// inverted wherever the matching sprite bit is set; every other pixel keeps
/// its value. A row at or below the bottom edge is clipped entirely.
pub open spec fn blit_row(s: Seq<u8>, b: u8, x: u8, y: u8) -> Seq<u8> {
    if y >= 32 {
        s
    } else {
        Seq::new(
            s.len(),
            |j: int|
                {
                    let d = col_offset(x, j % 64);
                    if j / 64 == y && d < 8 && sprite_bit(b, d) {
                        flip_pixel(s[j])
                    } else {
                        s[j]
                    }
                },
        )
    }
}

/// Whether blitting row byte `b` at `(x, y)` turns some pixel from 1 to 0:
/// true exactly when a set sprite bit lands on a pixel that is already 1.
pub open spec fn blit_collision(s: Seq<u8>, b: u8, x: u8, y: u8) -> bool {
    &&& y < 32
    &&& exists|i: int| 0 <= i < 8 && sprite_bit(b, i) && s[y * 64 + wrap_col(x, i)] == 1
}

/// The monochrome pixel grid.
pub struct Display {
    screen: Vec<u8>,
}

impl View for Display {
    type V = Seq<u8>;

    closed spec fn view(&self) -> Seq<u8> {
        self.screen@
    }
}

impl Display {
    pub open spec fn wf(&self) -> bool {
        screen_wf(self@)
    }

    /// A fresh screen is fully dark.
    pub fn new() -> (r: Display)
        ensures
            r.wf(),
            forall|j: int| 0 <= j < 2048 ==> r@[j] == 0u8,
    {
        let mut screen: Vec<u8> = Vec::new();
        let mut k: usize = 0;
        while k < DISPLAY_LEN
            invariant
                k <= 2048,
                screen@.len() == k,
                forall|j: int| 0 <= j < k ==> screen@[j] == 0u8,
            decreases 2048 - k,
        {
            screen.push(0);
            k = k + 1;
        }
        Display { screen }
    }

    /// The flat buffer index of the pixel at `(x, y)`.
    pub fn get_index_from_coords(x: usize, y: usize) -> (r: usize)
        requires
            x < 64,
            y < 32,
        ensures
            r == y * 64 + x,
    {
        y * DISPLAY_WIDTH + x
    }

    /// XOR-blit one sprite row byte at `(x, y)` and report whether any pixel
    /// went from 1 to 0.
    pub fn debug_draw_sprite(&mut self, byte: u8, x: u8, y: u8) -> (flipped: bool)
        requires
            old(self).wf(),
        ensures
            final(self).wf(),
            final(self)@ == blit_row(old(self)@, byte, x, y),
            flipped == blit_collision(old(self)@, byte, x, y),
    {
        if y >= 32 {
            return false;
        }
        let ghost orig = self@;
        let mut flipped = false;
        let xm: usize = (x as usize) % 64;
        let row_base: usize = (y as usize) * 64;
        let mut i: usize = 0;
        while i < 8
            invariant
                old(self).wf(),
                orig == old(self)@,
                y < 32,
                xm == x % 64,
                row_base == y * 64,
                i <= 8,
                self@.len() == 2048,
                forall|j: int| 0 <= j < 2048 ==> self@[j] <= 1,
                forall|j: int|
                    0 <= j < 2048 ==> self@[j] == (
                    {
                        let d = col_offset(x, j % 64);
                        if j / 64 == y && d < i && sprite_bit(byte, d) {
                            flip_pixel(orig[j])
                        } else {
                            orig[j]
                        }
                    }),
                flipped == exists|ii: int|
                    0 <= ii < i && sprite_bit(byte, ii) && orig[y * 64 + wrap_col(x, ii)] == 1,
            decreases 8 - i,
        {
            let col = if xm + i < 64 {
                xm + i
            } else {
                xm + i - 64
            };
            let idx = row_base + col;
            proof {
                assert(col == wrap_col(x, i as int));
                assert(idx == y * 64 + wrap_col(x, i as int));
                assert(idx / 64 == y && idx % 64 == col);
                assert(col_offset(x, col as int) == i as int);
            }
            let shift: u8 = (7 - i) as u8;
            let on = ((byte >> shift) & 1) == 1;
            proof {
                assert(shift == (7 - (i as int)) as u8);
                assert(on == sprite_bit(byte, i as int));
            }
            if on {
                let prev = self.screen[idx];
                if prev == 1 {
                    self.screen.set(idx, 0);
                    flipped = true;
                    proof {
                        let ii = i as int;
                        assert(sprite_bit(byte, ii) && orig[y * 64 + wrap_col(x, ii)] == 1);
                    }
                } else {
                    self.screen.set(idx, 1);
                    proof {
                        assert(forall|ii: int|
                            0 <= ii < i + 1 && sprite_bit(byte, ii) && orig[y * 64 + wrap_col(
                                x,
                                ii,
                            )] == 1 ==> ii < i);
                    }
                }
            } else {
                proof {
                    assert(forall|ii: int|
                        0 <= ii < i + 1 && sprite_bit(byte, ii) && orig[y * 64 + wrap_col(x, ii)]
                            == 1 ==> ii < i);
                }
            }
            i = i + 1;
        }
        proof {
            assert(self@ =~= blit_row(orig, byte, x, y));
        }
        flipped
    }

    /// Set every pixel to 0.
    pub fn clear_screen(&mut self)
        ensures
            final(self).wf(),
            forall|j: int| 0 <= j < 2048 ==> final(self)@[j] == 0u8,
    {
        let mut screen: Vec<u8> = Vec::new();
        let mut k: usize = 0;
        while k < DISPLAY_LEN
            invariant
                k <= 2048,
                screen@.len() == k,
                forall|j: int| 0 <= j < k ==> screen@[j] == 0u8,
            decreases 2048 - k,
        {
            screen.push(0);
            k = k + 1;
        }
        self.screen = screen;
    }

    /// Read-only view of the pixel grid, for presentation.
    pub fn get_display_buffer(&self) -> (r: &[u8])
        ensures
            r@ == self@,
    {
        self.screen.as_slice()
    }
}

/// Law: XOR blitting is an involution. Drawing the same sprite row twice at
/// the same coordinates restores the screen exactly; and whenever the first
/// blit turned some pixel on, the second blit reports a collision there.
pub proof fn lemma_blit_idempotent(s: Seq<u8>, b: u8, x: u8, y: u8)
    requires
        screen_wf(s),
    ensures
        blit_row(blit_row(s, b, x, y), b, x, y) == s,
        (y < 32 && exists|i: int|
            0 <= i < 8 && sprite_bit(b, i) && s[y * 64 + wrap_col(x, i)] == 0) ==> blit_collision(
            blit_row(s, b, x, y),
            b,
            x,
            y,
        ),
{
    if y < 32 {
        let s1 = blit_row(s, b, x, y);
        assert(blit_row(s1, b, x, y) =~= s);
        if exists|i: int| 0 <= i < 8 && sprite_bit(b, i) && s[y * 64 + wrap_col(x, i)] == 0 {
            let i = choose|i: int|
                0 <= i < 8 && sprite_bit(b, i) && s[y * 64 + wrap_col(x, i)] == 0;
            let pos = y * 64 + wrap_col(x, i);
            assert(pos / 64 == y && pos % 64 == wrap_col(x, i));
            assert(col_offset(x, pos % 64) == i);
            assert(s1[pos] == flip_pixel(s[pos]));
            assert(s1[y * 64 + wrap_col(x, i)] == 1);
        }
    }
}

} // verus!
