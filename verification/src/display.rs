//! The 64 by 32 monochrome display and the sprite blit.

use vstd::prelude::*;

verus! {

/// Number of columns of the display.
pub const DISPLAY_WIDTH: usize = 64;

/// Number of rows of the display.
pub const DISPLAY_HEIGHT: usize = 32;

/// Number of cells of the display, which holds them row by row: the cell in
/// column `x` of row `y` is cell `DISPLAY_WIDTH * y + x`.
pub const DISPLAY_SIZE: usize = 2048;

/// Whether the bit of a sprite row that belongs to `column` is set. Column 0
/// is the leftmost pixel and is carried by the most significant bit.
pub open spec fn sprite_bit(row: u8, column: int) -> bool {
    0 <= column < 8 && (row >> ((7 - column) as u8)) & 1 == 1
}

/// Whether a sprite whose top-left corner is drawn at column `x0` and row
/// `y0` has a set bit on the display cell `index` (row-major). A sprite bit
/// that falls beyond the right or the bottom edge is clipped: it lies on no
/// cell.
pub open spec fn sprite_covers(sprite: Seq<u8>, x0: int, y0: int, index: int) -> bool {
    let row = index / (DISPLAY_WIDTH as int) - y0;
    let column = index % (DISPLAY_WIDTH as int) - x0;
    &&& 0 <= index < DISPLAY_SIZE
    &&& 0 <= row < sprite.len()
    &&& 0 <= column < 8
    &&& sprite_bit(sprite[row], column)
}

/// The display after a sprite was drawn on it: each cell that a set sprite
/// bit lies on is toggled, every other cell is kept.
pub open spec fn blit(pixels: Seq<bool>, sprite: Seq<u8>, x0: int, y0: int) -> Seq<bool> {
    Seq::new(
        DISPLAY_SIZE as nat,
        |index: int| pixels[index] != sprite_covers(sprite, x0, y0, index),
    )
}

/// Whether drawing the sprite switches off a cell that was lit: some lit
/// cell has a set sprite bit on it.
pub open spec fn collides(pixels: Seq<bool>, sprite: Seq<u8>, x0: int, y0: int) -> bool {
    exists|index: int| #[trigger] sprite_covers(sprite, x0, y0, index) && pixels[index]
}

/// The image of the display as RGBA bytes, four per cell: white for a lit
/// cell, black for an unlit one, always opaque.
pub open spec fn rgba(pixels: Seq<bool>) -> Seq<u8> {
    Seq::new(
        4 * pixels.len(),
        |i: int|
            if i % 4 == 3 || pixels[i / 4] {
                255u8
            } else {
                0u8
            },
    )
}

/// What a display holds: its cells in row-major order and whether they have
/// changed since they were last presented.
#[verifier::ext_equal]
pub struct Frame {
    pub pixels: Seq<bool>,
    pub dirty: bool,
}

/// The display buffer of the machine.
#[derive(Clone)]
pub struct VirtualDisplay {
    data: [bool; DISPLAY_SIZE],
    dirty_bit: bool,
}

/// Whether the cell `index` comes before the sprite position (`row`,
/// `column`) when the sprite at (`x0`, `y0`) is drawn row by row.
spec fn drawn_before(x0: int, y0: int, row: int, column: int, index: int) -> bool {
    let r = index / 64 - y0;
    let c = index % 64 - x0;
    r < row || (r == row && c < column)
}

/// Whether the lit cell `index` is hit by a sprite bit drawn before the sprite
/// position (`row`, `column`).
spec fn hit_before(
    pixels: Seq<bool>,
    sprite: Seq<u8>,
    x0: int,
    y0: int,
    row: int,
    column: int,
    index: int,
) -> bool {
    sprite_covers(sprite, x0, y0, index) && pixels[index] && drawn_before(
        x0,
        y0,
        row,
        column,
        index,
    )
}

impl View for VirtualDisplay {
    type V = Frame;

    closed spec fn view(&self) -> Frame {
        Frame { pixels: self.data@, dirty: self.dirty_bit }
    }
}

impl VirtualDisplay {
    /// A display with every cell off, and nothing to present.
    pub fn new() -> (display: VirtualDisplay)
        ensures
            display@.pixels == Seq::new(DISPLAY_SIZE as nat, |index: int| false),
            !display@.dirty,
    {
        VirtualDisplay { data: [false;2048], dirty_bit: false }
    }

    /// The number of cells never changes.
    pub proof fn lemma_size(&self)
        ensures
            self@.pixels.len() == DISPLAY_SIZE,
    {
    }

    /// Whether the cell `index` is lit.
    pub fn pixel(&self, index: usize) -> (lit: bool)
        requires
            index < DISPLAY_SIZE,
        ensures
            lit == self@.pixels[index as int],
    {
        self.data[index]
    }

    /// Whether the cells have changed since they were last presented.
    pub fn is_dirty(&self) -> (dirty: bool)
        ensures
            dirty == self@.dirty,
    {
        self.dirty_bit
    }

    /// Switches every cell off and marks the display as changed.
    pub fn clear(&mut self)
        ensures
            final(self)@.pixels == Seq::new(DISPLAY_SIZE as nat, |index: int| false),
            final(self)@.dirty,
    {
        self.data = [false;2048];
        self.dirty_bit = true;
    }

    /// Records that the cells have been presented.
    pub fn mark_presented(&mut self)
        ensures
            final(self)@.pixels == old(self)@.pixels,
            !final(self)@.dirty,
    {
        self.dirty_bit = false;
    }

    /// Draws a sprite with its top-left corner at column `x0` and row `y0`,
    /// toggling the cells under its set bits and clipping at the right and
    /// bottom edges. Returns whether a lit cell was switched off.
    pub fn draw_sprite(&mut self, sprite: &[u8], x0: u8, y0: u8) -> (collision: bool)
        ensures
            final(self)@.pixels == blit(old(self)@.pixels, sprite@, x0 as int, y0 as int),
            final(self)@.dirty,
            collision == collides(old(self)@.pixels, sprite@, x0 as int, y0 as int),
    {
        let ghost before = self.data@;
        let rows: usize = sprite.len();
        let left: usize = x0 as usize;
        let top: usize = y0 as usize;
        let mut collision = false;
        let mut i: usize = 0;
        while i < rows && top + i < 32
            invariant
                rows == sprite@.len(),
                left == x0,
                top == y0,
                before.len() == 2048,
                i <= rows,
                top + i <= 32 || i == 0,
                forall|k: int|
                    0 <= k < 2048 ==> self.data@[k] == (before[k] != (sprite_covers(
                        sprite@,
                        x0 as int,
                        y0 as int,
                        k,
                    ) && drawn_before(x0 as int, y0 as int, i as int, 0, k))),
                collision <==> exists|k: int|
                    hit_before(before, sprite@, x0 as int, y0 as int, i as int, 0, k),
            decreases rows - i,
        {
            let bits: u8 = sprite[i];
            let mut j: usize = 0;
            while j < 8 && left + j < 64
                invariant
                    rows == sprite@.len(),
                    left == x0,
                    top == y0,
                    before.len() == 2048,
                    i < rows,
                    top + i < 32,
                    j <= 8,
                    bits == sprite@[i as int],
                    forall|k: int|
                        0 <= k < 2048 ==> self.data@[k] == (before[k] != (sprite_covers(
                            sprite@,
                            x0 as int,
                            y0 as int,
                            k,
                        ) && drawn_before(x0 as int, y0 as int, i as int, j as int, k))),
                    collision <==> exists|k: int|
                        hit_before(before, sprite@, x0 as int, y0 as int, i as int, j as int, k),
                decreases 8 - j,
            {
                let index: usize = 64 * (top + i) + (left + j);
                let shift: u8 = (7 - j) as u8;
                let bit: bool = (bits >> shift) & 1 == 1;
                let lit: bool = self.data[index];
                assert(bit == sprite_bit(bits, j as int));
                assert(sprite_covers(sprite@, x0 as int, y0 as int, index as int) == bit);
                assert(lit == before[index as int]);
                let ghost earlier = collision;
                let ghost next: int = j + 1;
                self.data[index] = lit != bit;
                collision = collision || (lit && bit);
                proof {
                    assert forall|k: int| 0 <= k < 2048 implies self.data@[k] == (before[k] != (
                    sprite_covers(sprite@, x0 as int, y0 as int, k) && drawn_before(
                        x0 as int,
                        y0 as int,
                        i as int,
                        next,
                        k,
                    ))) by {
                        if k != index {
                            assert(drawn_before(x0 as int, y0 as int, i as int, next, k)
                                == drawn_before(x0 as int, y0 as int, i as int, j as int, k));
                        }
                    }
                    if exists|k: int|
                        hit_before(before, sprite@, x0 as int, y0 as int, i as int, next, k) {
                        let k = choose|k: int|
                            hit_before(before, sprite@, x0 as int, y0 as int, i as int, next, k);
                        if k != index {
                            assert(hit_before(
                                before,
                                sprite@,
                                x0 as int,
                                y0 as int,
                                i as int,
                                j as int,
                                k,
                            ));
                        }
                        assert(collision);
                    }
                    if collision {
                        if earlier {
                            let k = choose|k: int|
                                hit_before(
                                    before,
                                    sprite@,
                                    x0 as int,
                                    y0 as int,
                                    i as int,
                                    j as int,
                                    k,
                                );
                            assert(hit_before(
                                before,
                                sprite@,
                                x0 as int,
                                y0 as int,
                                i as int,
                                next,
                                k,
                            ));
                        } else {
                            assert(hit_before(
                                before,
                                sprite@,
                                x0 as int,
                                y0 as int,
                                i as int,
                                next,
                                index as int,
                            ));
                        }
                    }
                }
                j = j + 1;
            }
            proof {
                let below: int = i + 1;
                assert forall|k: int|
                    sprite_covers(sprite@, x0 as int, y0 as int, k) implies drawn_before(
                    x0 as int,
                    y0 as int,
                    i as int,
                    j as int,
                    k,
                ) == drawn_before(x0 as int, y0 as int, below, 0, k) by {}
                if exists|k: int|
                    hit_before(before, sprite@, x0 as int, y0 as int, i as int, j as int, k) {
                    let k = choose|k: int|
                        hit_before(before, sprite@, x0 as int, y0 as int, i as int, j as int, k);
                    assert(hit_before(before, sprite@, x0 as int, y0 as int, below, 0, k));
                }
                if exists|k: int|
                    hit_before(before, sprite@, x0 as int, y0 as int, below, 0, k) {
                    let k = choose|k: int|
                        hit_before(before, sprite@, x0 as int, y0 as int, below, 0, k);
                    assert(hit_before(before, sprite@, x0 as int, y0 as int, i as int, j as int, k));
                }
            }
            i = i + 1;
        }
        self.dirty_bit = true;
        proof {
            assert forall|k: int|
                sprite_covers(sprite@, x0 as int, y0 as int, k) implies drawn_before(
                x0 as int,
                y0 as int,
                i as int,
                0,
                k,
            ) by {}
            assert(self.data@ =~= blit(before, sprite@, x0 as int, y0 as int));
            if collision {
                let k = choose|k: int|
                    hit_before(before, sprite@, x0 as int, y0 as int, i as int, 0, k);
                assert(sprite_covers(sprite@, x0 as int, y0 as int, k) && before[k]);
            }
            if collides(before, sprite@, x0 as int, y0 as int) {
                let k = choose|k: int|
                    #[trigger] sprite_covers(sprite@, x0 as int, y0 as int, k) && before[k];
                assert(hit_before(before, sprite@, x0 as int, y0 as int, i as int, 0, k));
            }
        }
        collision
    }

    /// The image of the display as RGBA bytes, row by row.
    pub fn rgba_bytes(&self) -> (bytes: Vec<u8>)
        ensures
            bytes@ == rgba(self@.pixels),
    {
        let mut bytes: Vec<u8> = Vec::new();
        let mut index: usize = 0;
        while index < 2048
            invariant
                index <= 2048,
                bytes@.len() == 4 * index,
                forall|i: int| 0 <= i < 4 * index ==> bytes@[i] == rgba(self.data@)[i],
            decreases 2048 - index,
        {
            let shade: u8 = if self.data[index] {
                255
            } else {
                0
            };
            bytes.push(shade);
            bytes.push(shade);
            bytes.push(shade);
            bytes.push(255);
            index = index + 1;
        }
        assert(bytes@ =~= rgba(self.data@));
        bytes
    }
}

/// Drawing the same sprite twice at the same place restores every cell, and
/// the second draw reports a collision exactly when the sprite has a set bit
/// on a cell that was unlit before the first draw.
pub proof fn lemma_draw_twice(pixels: Seq<bool>, sprite: Seq<u8>, x0: int, y0: int)
    requires
        pixels.len() == DISPLAY_SIZE,
    ensures
        blit(blit(pixels, sprite, x0, y0), sprite, x0, y0) == pixels,
        collides(blit(pixels, sprite, x0, y0), sprite, x0, y0) <==> exists|index: int| #[trigger]
            sprite_covers(sprite, x0, y0, index) && !pixels[index],
{
    let once = blit(pixels, sprite, x0, y0);
    assert(blit(once, sprite, x0, y0) =~= pixels);
    if collides(once, sprite, x0, y0) {
        let index = choose|index: int| #[trigger]
            sprite_covers(sprite, x0, y0, index) && once[index];
        assert(sprite_covers(sprite, x0, y0, index) && !pixels[index]);
    }
    if exists|index: int| #[trigger] sprite_covers(sprite, x0, y0, index) && !pixels[index] {
        let index = choose|index: int| #[trigger]
            sprite_covers(sprite, x0, y0, index) && !pixels[index];
        assert(sprite_covers(sprite, x0, y0, index) && once[index]);
    }
}

} // verus!
