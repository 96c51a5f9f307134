use vstd::prelude::*;

use crate::chip8::{COORD_LENGTH, ORIGINAL_WIDTH, PIXEL_COLOR, WINDOW_SCALE};

verus! {

/// Width of the scaled frame, in pixels: `ORIGINAL_WIDTH * WINDOW_SCALE`.
pub const FRAME_WIDTH: usize = 512;

/// Height of the scaled frame, in pixels: `ORIGINAL_HEIGHT * WINDOW_SCALE`.
pub const FRAME_HEIGHT: usize = 256;

/// Number of pixels of the scaled frame.
pub const FRAME_LENGTH: usize = 0x20000;

/// The framebuffer cell that the frame pixel `p` shows.
pub open spec fn cell_of(p: int) -> int {
    (p / 512 / 8) * 64 + (p % 512) / 8
}

/// The frame colour of a framebuffer cell.
pub open spec fn color(bit: u8) -> u32 {
    if bit == 1 { PIXEL_COLOR } else { 0 }
}

/// Offset of cell `p` from the origin `64 * y + x` of a sprite, over the
/// wrapping 2048-cell grid: `64 * row + column` within the sprite.
pub open spec fn sprite_offset(p: int, x: int, y: int) -> int {
    (p - (64 * y + x)) % 2048
}

/// Whether a sprite of `n` rows drawn at `(x, y)` covers cell `p`.
pub open spec fn sprite_covers(p: int, x: int, y: int, n: int) -> bool {
    let d = sprite_offset(p, x, y);
    d % 64 < 8 && d / 64 < n
}

/// Bit `k` of a sprite row, the most significant bit being column 0.
pub open spec fn row_bit(row: u8, k: int) -> u8 {
    (row >> ((7 - k) as u8)) & 1
}

/// The sprite bit that lands on cell `p`, for a cell that the sprite covers.
pub open spec fn sprite_bit(sprite: Seq<u8>, p: int, x: int, y: int) -> u8 {
    let d = sprite_offset(p, x, y);
    row_bit(sprite[d / 64], d % 64)
}

/// The cells after XOR-ing the sprite (one byte per row, eight pixels wide)
/// onto them at `(x, y)`, wrapping around the 2048-cell grid.
pub open spec fn drawn(cells: Seq<u8>, sprite: Seq<u8>, x: int, y: int) -> Seq<u8> {
    Seq::new(
        cells.len(),
        |p: int|
            if sprite_covers(p, x, y, sprite.len() as int) {
                cells[p] ^ sprite_bit(sprite, p, x, y)
            } else {
                cells[p]
            },
    )
}

/// Whether drawing the sprite turns off some lit cell.
pub open spec fn collides(cells: Seq<u8>, sprite: Seq<u8>, x: int, y: int) -> bool {
    exists|p: int|
        0 <= p < cells.len() && sprite_covers(p, x, y, sprite.len() as int) && cells[p] == 1
            && #[trigger] sprite_bit(sprite, p, x, y) == 1
}

/// Drawing a sprite twice at the same place gives the cells back: each
/// covered cell is XOR-ed twice with the same bit.
pub proof fn lemma_draw_twice(cells: Seq<u8>, sprite: Seq<u8>, x: int, y: int)
    ensures
        drawn(drawn(cells, sprite, x, y), sprite, x, y) == cells,
{
    let twice = drawn(drawn(cells, sprite, x, y), sprite, x, y);
    assert forall|p: int| 0 <= p < cells.len() implies #[trigger] twice[p] == cells[p] by {
        let b = sprite_bit(sprite, p, x, y);
        let c = cells[p];
        assert((c ^ b) ^ b == c) by (bit_vector);
    }
    assert(twice =~= cells);
}

/// Every cell is 0 (off) or 1 (on).
pub open spec fn cells_are_bits(cells: Seq<u8>) -> bool {
    forall|p: int| 0 <= p < cells.len() ==> #[trigger] cells[p] <= 1
}

/// The 64x32 monochrome framebuffer, and the frame that shows it scaled by
/// `WINDOW_SCALE`. Cells changed since the last `map_pixels` are pending:
/// the frame may not show them yet.
pub struct Display {
    /// The scaled frame, row-major.
    buffer: Vec<u32>,
    /// The framebuffer cells, row-major, index `64 * y + x`.
    coord: Vec<u8>,
    /// Cells changed since the frame was last brought up to date.
    changes_stack: Vec<usize>,
    /// Frame width.
    window_width: usize,
    /// Frame height.
    window_height: usize,
}

impl View for Display {
    type V = Seq<u8>;

    closed spec fn view(&self) -> Seq<u8> {
        self.coord@
    }
}

impl Display {
    /// The scaled frame.
    pub closed spec fn frame(&self) -> Seq<u32> {
        self.buffer@
    }

    /// The cells that the frame may not show yet.
    pub closed spec fn pending(&self) -> Seq<usize> {
        self.changes_stack@
    }

    /// Frame width and height.
    pub closed spec fn size(&self) -> (usize, usize) {
        (self.window_width, self.window_height)
    }

    /// Sizes as documented, pending cells inside the grid, and each frame
    /// pixel showing its cell unless that cell is pending.
    pub open spec fn wf(&self) -> bool {
        &&& self@.len() == COORD_LENGTH
        &&& self.frame().len() == FRAME_LENGTH
        &&& self.size() == (FRAME_WIDTH, FRAME_HEIGHT)
        &&& forall|q: int| 0 <= q < self.pending().len() ==> #[trigger] self.pending()[q] < COORD_LENGTH
        &&& forall|p: int|
            0 <= p < FRAME_LENGTH && !self.pending().contains(cell_of(p) as usize) ==> #[trigger] self.frame()[p]
                == color(self@[cell_of(p)])
    }

    /// Every frame pixel shows its cell.
    pub open spec fn shows_cells(&self) -> bool {
        forall|p: int|
            0 <= p < FRAME_LENGTH ==> #[trigger] self.frame()[p] == color(self@[cell_of(p)])
    }

    /// Creates a blank display whose frame is `width` by `height` pixels,
    /// the CHIP-8 screen scaled by `WINDOW_SCALE`.
    pub fn new(width: usize, height: usize) -> (d: Display)
        requires
            width == FRAME_WIDTH,
            height == FRAME_HEIGHT,
        ensures
            d.wf(),
            d@ == Seq::new(COORD_LENGTH as nat, |p: int| 0u8),
            d.pending().len() == 0,
    {
        let buffer: Vec<u32> = vec![0u32; width * height];
        let coord: Vec<u8> = vec![0u8; COORD_LENGTH];
        let d = Display {
            buffer,
            coord,
            changes_stack: Vec::new(),
            window_width: width,
            window_height: height,
        };
        assert(d@ =~= Seq::new(COORD_LENGTH as nat, |p: int| 0u8));
        d
    }

    /// Returns the cell at `idx`.
    pub fn coord_at(&self, idx: usize) -> (bit: u8)
        requires
            self.wf(),
            idx < COORD_LENGTH,
        ensures
            bit == self@[idx as int],
    {
        self.coord[idx]
    }

    /// Returns the scaled frame, row-major, `FRAME_WIDTH` pixels a row.
    pub fn buffer(&self) -> (frame: &Vec<u32>)
        ensures
            frame@ == self.frame(),
    {
        &self.buffer
    }

    /// Sets the cell at `idx` and marks it pending.
    pub fn set_coord(&mut self, idx: usize, bit: u8)
        requires
            old(self).wf(),
            idx < COORD_LENGTH,
        ensures
            final(self).wf(),
            final(self)@ == old(self)@.update(idx as int, bit),
            final(self).pending() == old(self).pending().push(idx),
    {
        self.coord.set(idx, bit);
        self.changes_stack.push(idx);
        assert forall|p: int|
            0 <= p < FRAME_LENGTH && !self.pending().contains(
                cell_of(p) as usize,
            ) implies #[trigger] self.frame()[p] == color(self@[cell_of(p)]) by {
            assert(old(self).pending().contains(cell_of(p) as usize) ==> self.pending().contains(
                cell_of(p) as usize,
            )) by {
                if old(self).pending().contains(cell_of(p) as usize) {
                    let q = choose|q: int|
                        0 <= q < old(self).pending().len() && old(self).pending()[q] == cell_of(
                            p,
                        ) as usize;
                    assert(self.pending()[q] == cell_of(p) as usize);
                }
            }
            assert(self.pending()[old(self).pending().len() as int] == idx);
            lemma_cell_of_bounds(p);
        }
    }

    /// Brings the frame up to date: every frame pixel shows its cell, and no
    /// cell is pending any more.
    pub fn map_pixels(&mut self)
        requires
            old(self).wf(),
        ensures
            final(self).wf(),
            final(self)@ == old(self)@,
            final(self).pending().len() == 0,
            final(self).shows_cells(),
    {
        while self.changes_stack.len() > 0
            invariant
                self.wf(),
                self@ == old(self)@,
            decreases self.changes_stack.len(),
        {
            let ghost before = self.pending();
            let i = match self.changes_stack.pop() {
                Some(i) => i,
                None => 0,
            };
            let ghost pend = self.pending();
            assert(before[before.len() - 1] < COORD_LENGTH);
            assert(before == pend.push(i));
            let x = (i % ORIGINAL_WIDTH) * WINDOW_SCALE;
            let y = (i / ORIGINAL_WIDTH) * WINDOW_SCALE;
            let pixel = if self.coord[i] == 1 { PIXEL_COLOR } else { 0x0 };
            let ghost frame0 = self.frame();
            let mut j: usize = 0;
            while j < WINDOW_SCALE
                invariant
                    j <= WINDOW_SCALE,
                    i < COORD_LENGTH,
                    x == (i % 64) * 8,
                    y == (i / 64) * 8,
                    pixel == color(self@[i as int]),
                    self@ == old(self)@,
                    self.pending() == pend,
                    self.size() == (FRAME_WIDTH, FRAME_HEIGHT),
                    self.frame().len() == FRAME_LENGTH,
                    forall|p: int|
                        0 <= p < FRAME_LENGTH ==> #[trigger] self.frame()[p] == if cell_of(p) == i
                            && p / 512 < y + j {
                            pixel
                        } else {
                            frame0[p]
                        },
                decreases WINDOW_SCALE - j,
            {
                let mut k: usize = 0;
                while k < WINDOW_SCALE
                    invariant
                        j < WINDOW_SCALE,
                        k <= WINDOW_SCALE,
                        i < COORD_LENGTH,
                        x == (i % 64) * 8,
                        y == (i / 64) * 8,
                        pixel == color(self@[i as int]),
                        self@ == old(self)@,
                        self.pending() == pend,
                        self.size() == (FRAME_WIDTH, FRAME_HEIGHT),
                        self.frame().len() == FRAME_LENGTH,
                        forall|p: int|
                            0 <= p < FRAME_LENGTH ==> #[trigger] self.frame()[p] == if cell_of(p)
                                == i && (p / 512 < y + j || (p / 512 == y + j && p % 512 < x
                                + k)) {
                                pixel
                            } else {
                                frame0[p]
                            },
                    decreases WINDOW_SCALE - k,
                {
                    let idx = (FRAME_WIDTH * (y + j) + x + k) % FRAME_LENGTH;
                    proof {
                        lemma_block_pixel(i as int, j as int, k as int);
                    }
                    self.buffer.set(idx, pixel);
                    assert forall|p: int| 0 <= p < FRAME_LENGTH implies #[trigger] self.frame()[p]
                        == if cell_of(p) == i && (p / 512 < y + j || (p / 512 == y + j && p % 512
                        < x + k + 1)) {
                        pixel
                    } else {
                        frame0[p]
                    } by {
                        lemma_frame_split(p);
                        lemma_frame_split(idx as int);
                    }
                    k += 1;
                }
                assert forall|p: int| 0 <= p < FRAME_LENGTH implies #[trigger] self.frame()[p]
                    == if cell_of(p) == i && p / 512 < y + j + 1 {
                    pixel
                } else {
                    frame0[p]
                } by {
                    lemma_block(p, i as int);
                }
                j += 1;
            }
            assert forall|p: int|
                0 <= p < FRAME_LENGTH && !self.pending().contains(
                    cell_of(p) as usize,
                ) implies #[trigger] self.frame()[p] == color(self@[cell_of(p)]) by {
                lemma_block(p, i as int);
                lemma_cell_of_bounds(p);
                if cell_of(p) != i {
                    assert(!before.contains(cell_of(p) as usize)) by {
                        if before.contains(cell_of(p) as usize) {
                            let q = choose|q: int|
                                0 <= q < before.len() && before[q] == cell_of(p) as usize;
                            if q < pend.len() {
                                assert(pend[q] == cell_of(p) as usize);
                            }
                        }
                    }
                }
            }
        }
        assert forall|p: int| 0 <= p < FRAME_LENGTH implies #[trigger] self.frame()[p] == color(
            self@[cell_of(p)],
        ) by {
            lemma_cell_of_bounds(p);
        }
    }

    /// Turns every cell off and blanks the frame.
    pub fn clear(&mut self)
        requires
            old(self).wf(),
        ensures
            final(self).wf(),
            final(self)@ == Seq::new(COORD_LENGTH as nat, |p: int| 0u8),
            final(self).pending() == old(self).pending(),
            forall|p: int| 0 <= p < FRAME_LENGTH ==> #[trigger] final(self).frame()[p] == 0,
    {
        self.coord = vec![0u8; self.coord.len()];
        self.buffer = vec![0u32; self.buffer.len()];
        assert(self@ =~= Seq::new(COORD_LENGTH as nat, |p: int| 0u8));
        assert(self.frame().len() == FRAME_LENGTH);
        assert(self.size() == (FRAME_WIDTH, FRAME_HEIGHT));
        assert(self.pending() == old(self).pending());
        assert forall|p: int| 0 <= p < FRAME_LENGTH implies #[trigger] self.frame()[p] == color(
            self@[cell_of(p)],
        ) by {
            lemma_cell_of_bounds(p);
        }
    }
}

/// A frame pixel shows a cell of the grid.
proof fn lemma_cell_of_bounds(p: int)
    requires
        0 <= p < FRAME_LENGTH,
    ensures
        0 <= cell_of(p) < COORD_LENGTH,
{
}

/// A frame pixel is its row times the frame width plus its column.
proof fn lemma_frame_split(p: int)
    requires
        0 <= p < FRAME_LENGTH,
    ensures
        p == 512 * (p / 512) + p % 512,
        0 <= p % 512 < 512,
        0 <= p / 512 < 256,
{
}

/// The pixel in row `j`, column `k` of the block that shows cell `i`.
proof fn lemma_block_pixel(i: int, j: int, k: int)
    requires
        0 <= i < COORD_LENGTH,
        0 <= j < 8,
        0 <= k < 8,
    ensures
        ({
            let p = 512 * ((i / 64) * 8 + j) + (i % 64) * 8 + k;
            &&& 0 <= p < FRAME_LENGTH
            &&& p % (FRAME_LENGTH as int) == p
            &&& p / 512 == (i / 64) * 8 + j
            &&& p % 512 == (i % 64) * 8 + k
            &&& cell_of(p) == i
        }),
{
    let row = (i / 64) * 8 + j;
    let col = (i % 64) * 8 + k;
    let p = 512 * row + col;
    vstd::arithmetic::div_mod::lemma_fundamental_div_mod_converse(p, 512, row, col);
    vstd::arithmetic::div_mod::lemma_fundamental_div_mod_converse(row, 8, i / 64, j);
    vstd::arithmetic::div_mod::lemma_fundamental_div_mod_converse(col, 8, i % 64, k);
}

/// The frame pixels that show cell `i` are exactly those of its 8x8 block.
proof fn lemma_block(p: int, i: int)
    requires
        0 <= p < FRAME_LENGTH,
        0 <= i < COORD_LENGTH,
    ensures
        cell_of(p) == i <==> ((i / 64) * 8 <= p / 512 < (i / 64) * 8 + 8 && (i % 64) * 8 <= p
            % 512 < (i % 64) * 8 + 8),
{
    let row = p / 512;
    let col = p % 512;
    if cell_of(p) == i {
        vstd::arithmetic::div_mod::lemma_fundamental_div_mod_converse(i, 64, row / 8, col / 8);
    }
    if (i / 64) * 8 <= row < (i / 64) * 8 + 8 && (i % 64) * 8 <= col < (i % 64) * 8 + 8 {
        vstd::arithmetic::div_mod::lemma_fundamental_div_mod_converse(
            row,
            8,
            i / 64,
            row - (i / 64) * 8,
        );
        vstd::arithmetic::div_mod::lemma_fundamental_div_mod_converse(
            col,
            8,
            i % 64,
            col - (i % 64) * 8,
        );
    }
}

} // verus!
