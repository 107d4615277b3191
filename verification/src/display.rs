//! The 64x32 monochrome display buffer and sprite drawing.

use vstd::prelude::*;

verus! {

/// Number of pixel columns.
pub const DISPLAY_WIDTH: usize = 64;

/// Number of pixel rows.
pub const DISPLAY_HEIGHT: usize = 32;

/// Number of pixels; pixel `(x, y)` is stored at `y * DISPLAY_WIDTH + x`.
pub const DISPLAY_SIZE: usize = 2048;

/// Bit `column` of a sprite row, counted from the most significant bit.
pub open spec fn sprite_bit(row: u8, column: u8) -> u8 {
    if row & (0x80u8 >> column) != 0 {
        1
    } else {
        0
    }
}

/// The sprite bit that a draw with its top-left corner at `(ox, oy)` sends to
/// the pixel stored at `index`, or 0 where the sprite does not reach. Without
/// `wrap`, bits that would land beyond the right or bottom edge reach no
/// pixel at all; with it they come back in at the opposite edge.
pub open spec fn incoming_bit(sprite: Seq<u8>, ox: int, oy: int, wrap: bool, index: int) -> u8 {
    incoming_bit_upto(sprite, ox, oy, wrap, sprite.len() as int, 0, index)
}

/// As [`incoming_bit`], for only the first `rows` rows of the sprite and the
/// first `columns` bits of the row after them.
pub open spec fn incoming_bit_upto(
    sprite: Seq<u8>,
    ox: int,
    oy: int,
    wrap: bool,
    rows: int,
    columns: int,
    index: int,
) -> u8 {
    let column = if wrap {
        (index % 64 - ox) % 64
    } else {
        index % 64 - ox
    };
    let row = if wrap {
        (index / 64 - oy) % 32
    } else {
        index / 64 - oy
    };
    if 0 <= column < 8 && 0 <= row < sprite.len() && (row < rows || (row == rows && column
        < columns)) {
        sprite_bit(sprite[row], column as u8)
    } else {
        0
    }
}

/// The pixels after XOR-ing a sprite into them.
pub open spec fn drawn(pixels: Seq<u8>, sprite: Seq<u8>, ox: int, oy: int, wrap: bool) -> Seq<u8> {
    Seq::new(pixels.len(), |index: int| pixels[index] ^ incoming_bit(sprite, ox, oy, wrap, index))
}

/// Whether drawing the sprite turns a lit pixel off.
pub open spec fn collides(pixels: Seq<u8>, sprite: Seq<u8>, ox: int, oy: int, wrap: bool) -> bool {
    exists|index: int|
        0 <= index < pixels.len() && pixels[index] == 1 && #[trigger] incoming_bit(
            sprite,
            ox,
            oy,
            wrap,
            index,
        ) == 1
}

/// Every pixel is 0 (off) or 1 (on).
pub open spec fn binary(pixels: Seq<u8>) -> bool {
    forall|index: int| 0 <= index < pixels.len() ==> #[trigger] pixels[index] <= 1
}

/// XOR on single bits: a 0 keeps the pixel, a 1 inverts it.
pub proof fn lemma_xor_bit(pixel: u8, bit: u8)
    by (bit_vector)
    ensures
        bit == 0 ==> pixel ^ bit == pixel,
        pixel == 0 && bit == 1 ==> pixel ^ bit == 1,
        pixel == 1 && bit == 1 ==> pixel ^ bit == 0,
{
}

/// Drawing is its own inverse: the same sprite drawn twice at the same place
/// leaves every pixel as it was. The second draw reports a collision exactly
/// when the first one turned some pixel on.
pub proof fn lemma_draw_twice_restores(
    pixels: Seq<u8>,
    sprite: Seq<u8>,
    ox: int,
    oy: int,
    wrap: bool,
)
    requires
        binary(pixels),
    ensures
        drawn(drawn(pixels, sprite, ox, oy, wrap), sprite, ox, oy, wrap) == pixels,
        binary(drawn(pixels, sprite, ox, oy, wrap)),
        collides(drawn(pixels, sprite, ox, oy, wrap), sprite, ox, oy, wrap) <==> exists|index: int|
            0 <= index < pixels.len() && #[trigger] pixels[index] == 0 && drawn(
                pixels,
                sprite,
                ox,
                oy,
                wrap,
            )[index] == 1,
{
    let once = drawn(pixels, sprite, ox, oy, wrap);
    let twice = drawn(once, sprite, ox, oy, wrap);
    assert forall|index: int| 0 <= index < pixels.len() implies {
        &&& twice[index] == pixels[index]
        &&& #[trigger] once[index] <= 1
        &&& (once[index] == 1 && incoming_bit(sprite, ox, oy, wrap, index) == 1 <==> pixels[index]
            == 0 && once[index] == 1)
    } by {
        let bit = incoming_bit(sprite, ox, oy, wrap, index);
        lemma_xor_bit(pixels[index], bit);
        lemma_xor_bit(once[index], bit);
    }
    assert(twice =~= pixels);
    if collides(once, sprite, ox, oy, wrap) {
        let index = choose|index: int|
            0 <= index < once.len() && once[index] == 1 && #[trigger] incoming_bit(
                sprite,
                ox,
                oy,
                wrap,
                index,
            ) == 1;
        assert(pixels[index] == 0 && once[index] == 1);
    }
    if exists|index: int|
        0 <= index < pixels.len() && #[trigger] pixels[index] == 0 && once[index] == 1 {
        let index = choose|index: int|
            0 <= index < pixels.len() && #[trigger] pixels[index] == 0 && once[index] == 1;
        assert(once[index] == 1 && incoming_bit(sprite, ox, oy, wrap, index) == 1);
    }
}

/// The display buffer.
#[derive(Clone, Debug)]
pub struct Display {
    pixels: [u8; 2048],
}

impl View for Display {
    type V = Seq<u8>;

    closed spec fn view(&self) -> Seq<u8> {
        self.pixels@
    }
}

impl Display {
    /// The buffer holds 2048 pixels, each 0 or 1.
    pub open spec fn well_formed(&self) -> bool {
        &&& self@.len() == 2048
        &&& binary(self@)
    }

    /// A display with every pixel off.
    pub fn new() -> (display: Display)
        ensures
            display.well_formed(),
            forall|index: int| 0 <= index < 2048 ==> display@[index] == 0,
    {
        Display { pixels: [0u8; 2048] }
    }

    /// Turns every pixel off.
    pub fn clear(&mut self)
        ensures
            final(self).well_formed(),
            forall|index: int| 0 <= index < 2048 ==> final(self)@[index] == 0,
    {
        self.pixels = [0u8; 2048];
    }

    /// The pixel at column `x`, row `y`, or `None` outside the display.
    pub fn pixel(&self, x: usize, y: usize) -> (pixel: Option<u8>)
        ensures
            pixel == if x < 64 && y < 32 {
                Some(self@[y * 64 + x])
            } else {
                None
            },
    {
        if x < DISPLAY_WIDTH && y < DISPLAY_HEIGHT {
            Some(self.pixels[y * DISPLAY_WIDTH + x])
        } else {
            None
        }
    }

    /// A read-only snapshot of all pixels, row by row.
    pub fn pixels(&self) -> (pixels: &[u8; 2048])
        ensures
            pixels@ == self@,
    {
        &self.pixels
    }

    /// XORs a sprite of up to 15 rows into the display, most significant
    /// bit leftmost. The top-left corner is `(x, y)` taken modulo the width
    /// and height. Bits that fall beyond the right or bottom edge are dropped,
    /// or with `wrap` come back in at the opposite edge. Returns whether a lit
    /// pixel was turned off.
    pub fn draw(&mut self, sprite: &[u8], x: u8, y: u8, wrap: bool) -> (collision: bool)
        requires
            old(self).well_formed(),
            sprite@.len() <= 15,
        ensures
            final(self).well_formed(),
            final(self)@ == drawn(old(self)@, sprite@, x as int % 64, y as int % 32, wrap),
            collision == collides(old(self)@, sprite@, x as int % 64, y as int % 32, wrap),
    {
        let ox: usize = (x % 64) as usize;
        let oy: usize = (y % 32) as usize;
        let ghost before = self@;
        let ghost mut witness: int = 0;
        proof {
            assert(forall|pixel: u8| #[trigger] (pixel ^ 0) == pixel) by (bit_vector);
        }
        let mut collision = false;
        let mut row: usize = 0;
        while row < sprite.len()
            invariant
                0 <= row <= sprite@.len() <= 15,
                ox < 64,
                oy < 32,
                before.len() == 2048,
                binary(before),
                self@.len() == 2048,
                forall|index: int|
                    0 <= index < 2048 ==> #[trigger] self@[index] == before[index]
                        ^ incoming_bit_upto(
                        sprite@,
                        ox as int,
                        oy as int,
                        wrap,
                        row as int,
                        0,
                        index,
                    ),
                collision ==> 0 <= witness < 2048 && before[witness] == 1 && incoming_bit_upto(
                    sprite@,
                    ox as int,
                    oy as int,
                    wrap,
                    row as int,
                    0,
                    witness,
                ) == 1,
                !collision ==> forall|index: int|
                    0 <= index < 2048 && before[index] == 1 ==> #[trigger] incoming_bit_upto(
                        sprite@,
                        ox as int,
                        oy as int,
                        wrap,
                        row as int,
                        0,
                        index,
                    ) == 0,
            decreases sprite@.len() - row,
        {
            let byte = sprite[row];
            let mut column: u8 = 0;
            while column < 8
                invariant
                    0 <= row < sprite@.len() <= 15,
                    0 <= column <= 8,
                    ox < 64,
                    oy < 32,
                    byte == sprite@[row as int],
                    before.len() == 2048,
                    binary(before),
                    self@.len() == 2048,
                    forall|index: int|
                        0 <= index < 2048 ==> #[trigger] self@[index] == before[index]
                            ^ incoming_bit_upto(
                            sprite@,
                            ox as int,
                            oy as int,
                            wrap,
                            row as int,
                            column as int,
                            index,
                        ),
                    collision ==> 0 <= witness < 2048 && before[witness] == 1
                        && incoming_bit_upto(
                        sprite@,
                        ox as int,
                        oy as int,
                        wrap,
                        row as int,
                        column as int,
                        witness,
                    ) == 1,
                    !collision ==> forall|index: int|
                        0 <= index < 2048 && before[index] == 1 ==> #[trigger] incoming_bit_upto(
                            sprite@,
                            ox as int,
                            oy as int,
                            wrap,
                            row as int,
                            column as int,
                            index,
                        ) == 0,
                decreases 8 - column,
            {
                let right: usize = ox + column as usize;
                let down: usize = oy + row;
                let ghost current = self@;
                if wrap || (right < DISPLAY_WIDTH && down < DISPLAY_HEIGHT) {
                    let px: usize = right % DISPLAY_WIDTH;
                    let py: usize = down % DISPLAY_HEIGHT;
                    let index: usize = py * DISPLAY_WIDTH + px;
                    let lit = byte & (0x80u8 >> column) != 0;
                    proof {
                        assert(index as int % 64 == px && index as int / 64 == py);
                        lemma_target(ox as int, oy as int, wrap, row as int, column as int);
                        assert(incoming_bit_upto(
                            sprite@,
                            ox as int,
                            oy as int,
                            wrap,
                            row as int,
                            column as int,
                            index as int,
                        ) == 0);
                        lemma_xor_bit(before[index as int], 0);
                        assert(current[index as int] == before[index as int]);
                    }
                    if lit {
                        let pixel = self.pixels[index];
                        if pixel == 1 {
                            collision = true;
                            proof {
                                witness = index as int;
                            }
                        }
                        self.pixels[index] = pixel ^ 1;
                    }
                    proof {
                        assert forall|other: int|
                            0 <= other < 2048 && other != index as int implies #[trigger] incoming_bit_upto(
                            sprite@,
                            ox as int,
                            oy as int,
                            wrap,
                            row as int,
                            column as int + 1,
                            other,
                        ) == incoming_bit_upto(
                            sprite@,
                            ox as int,
                            oy as int,
                            wrap,
                            row as int,
                            column as int,
                            other,
                        ) by {
                            lemma_source(ox as int, oy as int, wrap, other);
                        }
                        assert forall|other: int| 0 <= other < 2048 implies #[trigger] self@[other]
                            == before[other] ^ incoming_bit_upto(
                            sprite@,
                            ox as int,
                            oy as int,
                            wrap,
                            row as int,
                            column as int + 1,
                            other,
                        ) by {
                            if other == index as int {
                                lemma_xor_bit(before[other], sprite_bit(byte, column));
                            } else {
                                assert(self@[other] == current[other]);
                            }
                        }
                    }
                } else {
                    proof {
                        assert forall|other: int| 0 <= other < 2048 implies #[trigger] incoming_bit_upto(
                            sprite@,
                            ox as int,
                            oy as int,
                            wrap,
                            row as int,
                            column as int + 1,
                            other,
                        ) == incoming_bit_upto(
                            sprite@,
                            ox as int,
                            oy as int,
                            wrap,
                            row as int,
                            column as int,
                            other,
                        ) by {}
                    }
                }
                column += 1;
            }
            proof {
                assert forall|other: int| 0 <= other < 2048 implies #[trigger] incoming_bit_upto(
                    sprite@,
                    ox as int,
                    oy as int,
                    wrap,
                    row as int + 1,
                    0,
                    other,
                ) == incoming_bit_upto(
                    sprite@,
                    ox as int,
                    oy as int,
                    wrap,
                    row as int,
                    8,
                    other,
                ) by {}
            }
            row += 1;
        }
        proof {
            assert(self@ =~= drawn(before, sprite@, ox as int, oy as int, wrap));
            if collision {
                assert(incoming_bit(sprite@, ox as int, oy as int, wrap, witness) == 1);
            }
            assert forall|index: int| 0 <= index < 2048 implies #[trigger] self@[index] <= 1 by {
                lemma_xor_bit(
                    before[index],
                    incoming_bit(sprite@, ox as int, oy as int, wrap, index),
                );
            }
        }
        collision
    }
}

/// The pixel that bit `column` of sprite row `row` is sent to lies `column`
/// to the right of the origin and `row` below it, around the edges if the
/// sprite wraps.
proof fn lemma_target(ox: int, oy: int, wrap: bool, row: int, column: int)
    requires
        0 <= ox < 64,
        0 <= oy < 32,
        0 <= row < 32,
        0 <= column < 8,
        wrap || (ox + column < 64 && oy + row < 32),
    ensures
        ({
            let px = (ox + column) % 64;
            let py = (oy + row) % 32;
            &&& (if wrap {
                (px - ox) % 64
            } else {
                px - ox
            }) == column
            &&& (if wrap {
                (py - oy) % 32
            } else {
                py - oy
            }) == row
        }),
{
}

/// A pixel's offset from the origin tells where the pixel is: two pixels
/// with the same offset are one.
proof fn lemma_source(ox: int, oy: int, wrap: bool, index: int)
    requires
        0 <= ox < 64,
        0 <= oy < 32,
        0 <= index < 2048,
    ensures
        ({
            let column = if wrap {
                (index % 64 - ox) % 64
            } else {
                index % 64 - ox
            };
            let row = if wrap {
                (index / 64 - oy) % 32
            } else {
                index / 64 - oy
            };
            &&& index % 64 == (ox + column) % 64
            &&& index / 64 == (oy + row) % 32
            &&& wrap ==> 0 <= column < 64 && 0 <= row < 32
        }),
{
}

} // verus!
