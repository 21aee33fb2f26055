//! The devices of the machine: the monochrome display and the key pad.

use vstd::prelude::*;

use std::collections::HashMap;
use std::time::Instant;

use super::blit::{
    blank_grid, collisions, columns_drawn, draw_collisions, draw_pixels, flips, pixel_key,
    row_collides, rows_drawn, sprite_bit,
};
use super::{DISPLAY_BUFFER_HEIGHT, DISPLAY_BUFFER_WIDTH, KEY_COUNT};

verus! {

/// A point in time, as the standard library hands it out. Nothing is known of
/// its value.
#[verifier::external_type_specification]
#[verifier::external_body]
pub struct ExInstant(std::time::Instant);

/// One row of the display: 64 bits, the leftmost pixel first.
///
/// The bits are kept by `bitvec::array::BitArray<[u64; 1], Msb0>`, which the
/// verifier cannot look into. What a row holds is named by [`lit`].
#[verifier::external_body]
pub struct Row {
    bits: bitvec::array::BitArray<[u64; 1], bitvec::order::Msb0>,
}

/// The columns of a row whose pixel is lit.
pub uninterp spec fn lit(row: Row) -> Set<int>;

/// `BitArray::ZERO`, a bit array with every bit cleared: a row without a lit
/// pixel.
#[verifier::external_body]
fn row_blank() -> (row: Row)
    ensures
        lit(row) == Set::<int>::empty(),
{
    Row { bits: bitvec::array::BitArray::ZERO }
}

/// Indexing a `BitSlice` by a position, which panics past the end of the
/// slice: whether the pixel in column `x` is lit.
#[verifier::external_body]
fn row_get(row: &Row, x: usize) -> (bit: bool)
    requires
        x < DISPLAY_BUFFER_WIDTH,
    ensures
        bit == lit(*row).contains(x as int),
{
    row.bits[x]
}

/// `BitSlice::set`, which writes one bit and panics past the end of the
/// slice: the pixel in column `x` becomes `value`, the others stay.
#[verifier::external_body]
fn row_set(row: &mut Row, x: usize, value: bool)
    requires
        x < DISPLAY_BUFFER_WIDTH,
    ensures
        lit(*final(row)) == if value {
            lit(*old(row)).insert(x as int)
        } else {
            lit(*old(row)).remove(x as int)
        },
{
    row.bits.set(x, value)
}

/// `BitSlice::fill`, which writes `value` into every bit: all 64 pixels of
/// the row become `value`.
#[verifier::external_body]
fn row_fill(row: &mut Row, value: bool)
    ensures
        lit(*final(row)) == Set::<int>::new(|x: int| value && 0 <= x < DISPLAY_BUFFER_WIDTH),
{
    row.bits.fill(value)
}

/// `BitViewSized::into_bitarray` in the order `Msb0`, which views a byte as
/// eight bits from the most significant to the least.
#[verifier::external_body]
fn sprite_bits(byte: u8) -> (bits: [bool; 8])
    ensures
        forall|c: int| 0 <= c < 8 ==> #[trigger] bits[c] == sprite_bit(byte, c),
{
    let row = bitvec::view::BitViewSized::into_bitarray::<bitvec::order::Msb0>(byte);
    [row[0], row[1], row[2], row[3], row[4], row[5], row[6], row[7]]
}

/// `Instant::now`: the time at which a pixel was flipped off. No two calls
/// need agree.
#[verifier::external_body]
fn now() -> std::time::Instant {
    std::time::Instant::now()
}

/// How the display treats sprites and whether it records flips.
#[derive(Clone, Copy, Debug)]
pub struct Options {
    /// Keep, for each pixel that a sprite switched off, the time of that flip.
    pub track_changes: bool,
    /// Let a sprite that reaches the right or bottom edge go on at the
    /// opposite edge; without it the sprite is cut off there.
    pub wrap_sprites: bool,
}

/// Whether `after` holds the time stamps of `before` and, added to them or in
/// place of them, one for each of `keys`.
pub open spec fn stamped(before: Map<usize, Instant>, after: Map<usize, Instant>, keys: Set<usize>) -> bool {
    &&& after.dom() =~= before.dom().union(keys)
    &&& forall|k: usize| #[trigger] before.dom().contains(k) && !keys.contains(k) ==> after[k] == before[k]
}

/// Time stamps that were renewed for `first` and then for `second` were
/// renewed for both.
pub proof fn lemma_stamped_chain(
    before: Map<usize, Instant>,
    middle: Map<usize, Instant>,
    after: Map<usize, Instant>,
    first: Set<usize>,
    second: Set<usize>,
)
    requires
        stamped(before, middle, first),
        stamped(middle, after, second),
    ensures
        stamped(before, after, first.union(second)),
{
    assert(after.dom() =~= before.dom().union(first.union(second)));
    assert forall|k: usize| #[trigger] before.dom().contains(k) && !first.union(second).contains(k) implies after[k]
        == before[k] by {
        assert(middle.dom().contains(k));
    }
}

/// The pixel `(x, y)` of `grid` after the first `r` rows of a sprite and the
/// first `c` columns of its row `r` were drawn.
#[verifier::opaque]
spec fn cell(grid: Seq<Seq<bool>>, sprite: Seq<u8>, ox: int, oy: int, wrap: bool, r: nat, c: int, x: int, y: int) -> bool {
    (grid[y][x] != flips(sprite, ox, oy, wrap, r, x, y)) != (y == (oy + r) % 32 && (x - ox) % 64 < c
        && sprite_bit(sprite[r as int], (x - ox) % 64))
}

/// Whether the pixel with key `k` saw a collision while the first `r` rows of
/// a sprite and the first `c` columns of its row `r` were drawn.
#[verifier::opaque]
spec fn struck(grid: Seq<Seq<bool>>, sprite: Seq<u8>, ox: int, oy: int, wrap: bool, r: nat, c: int, k: usize) -> bool {
    ||| collisions(grid, sprite, ox, oy, wrap, r).contains(k)
    ||| (k == pixel_key(k as int % 64, (oy + r) % 32) && (k as int % 64 - ox) % 64 < c && row_collides(
        grid,
        sprite,
        ox,
        oy,
        wrap,
        r as int,
        k as int % 64,
    ))
}

/// The monochrome display: 32 rows of 64 pixels.
pub struct DisplayBuffer {
    /// The rows from top to bottom.
    pub buffer: [Row; DISPLAY_BUFFER_HEIGHT],
    /// For each pixel that a sprite switched off since the consumer last
    /// looked, by the pixel's key `y * 64 + x`, the time of that flip. Filled
    /// only where `options.track_changes` is set.
    pub changed: HashMap<usize, Instant>,
    /// Set by every clear and draw; the consumer resets it.
    pub dirty: bool,
    pub options: Options,
}

impl DisplayBuffer {
    /// The pixels as a grid: `pixels()[y][x]` says whether the pixel in column
    /// `x` of row `y` is lit.
    pub open spec fn pixels(&self) -> Seq<Seq<bool>> {
        Seq::new(
            DISPLAY_BUFFER_HEIGHT as nat,
            |y: int| Seq::new(DISPLAY_BUFFER_WIDTH as nat, |x: int| lit(self.buffer[y]).contains(x)),
        )
    }

    /// Whether `self` is what `before` becomes where its pixels become
    /// `pixels`, where it is marked dirty if `drew` holds, and where the
    /// pixels `struck` get a time stamp if changes are tracked.
    pub open spec fn follows(&self, before: &DisplayBuffer, pixels: Seq<Seq<bool>>, drew: bool, struck: Set<usize>) -> bool {
        &&& self.pixels() == pixels
        &&& self.dirty == (before.dirty || drew)
        &&& self.options == before.options
        &&& stamped(
            before.changed@,
            self.changed@,
            if before.options.track_changes {
                struck
            } else {
                Set::empty()
            },
        )
    }

    /// What follows on what follows, follows.
    pub proof fn lemma_follows_chain(
        &self,
        middle: &DisplayBuffer,
        before: &DisplayBuffer,
        pixels: Seq<Seq<bool>>,
        drew: bool,
        struck: Set<usize>,
        then_drew: bool,
        then_struck: Set<usize>,
    )
        requires
            middle.follows(before, middle.pixels(), drew, struck),
            self.follows(middle, pixels, then_drew, then_struck),
        ensures
            self.follows(before, pixels, drew || then_drew, struck.union(then_struck)),
    {
        let track = before.options.track_changes;
        let first = if track { struck } else { Set::empty() };
        let second = if track { then_struck } else { Set::empty() };
        let both = if track { struck.union(then_struck) } else { Set::empty() };
        assert(both =~= first.union(second));
        lemma_stamped_chain(before.changed@, middle.changed@, self.changed@, first, second);
    }

    /// Switches every pixel off and marks the display dirty.
    pub fn clear(&mut self)
        ensures
            final(self).pixels() == blank_grid(),
            final(self).dirty,
            final(self).changed == old(self).changed,
            final(self).options == old(self).options,
    {
        let mut y: usize = 0;
        while y < DISPLAY_BUFFER_HEIGHT
            invariant
                y <= DISPLAY_BUFFER_HEIGHT,
                forall|j: int| 0 <= j < y ==> lit(#[trigger] self.buffer[j]) =~= Set::<int>::empty(),
                self.changed == old(self).changed,
                self.options == old(self).options,
            decreases DISPLAY_BUFFER_HEIGHT - y,
        {
            row_fill(&mut self.buffer[y], false);
            y += 1;
        }
        self.dirty = true;
        assert(self.pixels() =~~= blank_grid());
    }

    /// Draws `sprite`, one byte for each row, with its top left corner at
    /// `coordinates`, which are taken modulo the size of the display. A set
    /// bit flips its pixel. Returns whether any flip switched a pixel off;
    /// where changes are tracked, each such pixel gets a time stamp.
    pub fn draw(&mut self, coordinates: (usize, usize), sprite: &[u8]) -> (collided: bool)
        ensures
            final(self).pixels() == draw_pixels(
                old(self).pixels(),
                coordinates,
                sprite@,
                old(self).options.wrap_sprites,
            ),
            collided <==> draw_collisions(
                old(self).pixels(),
                coordinates,
                sprite@,
                old(self).options.wrap_sprites,
            ) != Set::<usize>::empty(),
            stamped(
                old(self).changed@,
                final(self).changed@,
                if old(self).options.track_changes {
                    draw_collisions(old(self).pixels(), coordinates, sprite@, old(self).options.wrap_sprites)
                } else {
                    Set::<usize>::empty()
                },
            ),
            final(self).dirty,
            final(self).options == old(self).options,
    {
        let ox: usize = coordinates.0 % DISPLAY_BUFFER_WIDTH;
        let oy: usize = coordinates.1 % DISPLAY_BUFFER_HEIGHT;
        let wrap: bool = self.options.wrap_sprites;
        let track: bool = self.options.track_changes;
        let rows: usize = if wrap || sprite.len() <= DISPLAY_BUFFER_HEIGHT - oy {
            sprite.len()
        } else {
            DISPLAY_BUFFER_HEIGHT - oy
        };
        let columns: usize = if wrap || ox <= DISPLAY_BUFFER_WIDTH - 8 {
            8
        } else {
            DISPLAY_BUFFER_WIDTH - ox
        };
        let ghost grid = self.pixels();
        let ghost stamps = self.changed@;
        let mut collided = false;
        let mut r: usize = 0;
        proof {
            lemma_nothing_drawn(grid, sprite@, ox as int, oy as int, wrap);
            assert(Set::new(|k: usize| track && struck(grid, sprite@, ox as int, oy as int, wrap, 0, 0, k))
                =~= Set::<usize>::empty());
        }
        while r < rows
            invariant
                r <= rows <= sprite.len(),
                ox < 64,
                oy < 32,
                rows == rows_drawn(sprite@.len(), oy as int, wrap),
                columns == columns_drawn(ox as int, wrap),
                grid == old(self).pixels(),
                stamps == old(self).changed@,
                self.options == old(self).options,
                wrap == self.options.wrap_sprites,
                track == self.options.track_changes,
                forall|x: int, y: int|
                    0 <= x < 64 && 0 <= y < 32 ==> lit(self.buffer[y]).contains(x) == #[trigger] cell(
                        grid,
                        sprite@,
                        ox as int,
                        oy as int,
                        wrap,
                        r as nat,
                        0,
                        x,
                        y,
                    ),
                collided <==> exists|k: usize| struck(grid, sprite@, ox as int, oy as int, wrap, r as nat, 0, k),
                stamped(
                    stamps,
                    self.changed@,
                    Set::new(
                        |k: usize| track && struck(grid, sprite@, ox as int, oy as int, wrap, r as nat, 0, k),
                    ),
                ),
            decreases rows - r,
        {
            let cy: usize = (oy + r % DISPLAY_BUFFER_HEIGHT) % DISPLAY_BUFFER_HEIGHT;
            let bits = sprite_bits(sprite[r]);
            let mut c: usize = 0;
            while c < columns
                invariant
                    c <= columns <= 8,
                    r < rows <= sprite.len(),
                    ox < 64,
                    oy < 32,
                    cy == (oy + r) % 32,
                    columns == columns_drawn(ox as int, wrap),
                    forall|i: int| 0 <= i < 8 ==> #[trigger] bits[i] == sprite_bit(sprite@[r as int], i),
                    grid == old(self).pixels(),
                    stamps == old(self).changed@,
                    self.options == old(self).options,
                    wrap == self.options.wrap_sprites,
                    track == self.options.track_changes,
                    forall|x: int, y: int|
                        0 <= x < 64 && 0 <= y < 32 ==> lit(self.buffer[y]).contains(x) == #[trigger] cell(
                            grid,
                            sprite@,
                            ox as int,
                            oy as int,
                            wrap,
                            r as nat,
                            c as int,
                            x,
                            y,
                        ),
                    collided <==> exists|k: usize|
                        struck(grid, sprite@, ox as int, oy as int, wrap, r as nat, c as int, k),
                    stamped(
                        stamps,
                        self.changed@,
                        Set::new(
                            |k: usize|
                                track && struck(grid, sprite@, ox as int, oy as int, wrap, r as nat, c as int, k),
                        ),
                    ),
                decreases columns - c,
            {
                let cx: usize = (ox + c) % DISPLAY_BUFFER_WIDTH;
                let ghost here = (cy * 64 + cx) as usize;
                let ghost rows_before = self.buffer;
                let ghost stamps_before = self.changed@;
                let ghost collided_before = collided;
                let mut struck_here = false;
                if bits[c] {
                    let was = row_get(&self.buffer[cy], cx);
                    if was {
                        collided = true;
                        struck_here = true;
                        if track {
                            let stamp = now();
                            self.changed.insert(cy * DISPLAY_BUFFER_WIDTH + cx, stamp);
                        }
                    }
                    row_set(&mut self.buffer[cy], cx, !was);
                }
                proof {
                    let s = sprite@;
                    let (oxi, oyi, ri, ci) = (ox as int, oy as int, r as nat, c as int);
                    let bit = sprite_bit(s[ri as int], ci);
                    assert(bits[ci] == bit);
                    lemma_cell_column(grid, s, oxi, oyi, wrap, ri, ci, cx as int, cy as int);
                    assert(lit(rows_before[cy as int]).contains(cx as int) == cell(
                        grid,
                        s,
                        oxi,
                        oyi,
                        wrap,
                        ri,
                        ci,
                        cx as int,
                        cy as int,
                    ));
                    lemma_struck_here(grid, s, oxi, oyi, wrap, ri, ci);
                    assert(struck_here == row_collides(grid, s, oxi, oyi, wrap, ri as int, cx as int));
                    assert forall|x: int, y: int| 0 <= x < 64 && 0 <= y < 32 implies lit(
                        self.buffer[y],
                    ).contains(x) == #[trigger] cell(grid, s, oxi, oyi, wrap, ri, ci + 1, x, y) by {
                        assert(lit(rows_before[y]).contains(x) == cell(grid, s, oxi, oyi, wrap, ri, ci, x, y));
                        lemma_cell_column(grid, s, oxi, oyi, wrap, ri, ci, x, y);
                    }
                    assert forall|k: usize|
                        #![trigger struck(grid, s, oxi, oyi, wrap, ri, ci + 1, k)]
                        struck(grid, s, oxi, oyi, wrap, ri, ci + 1, k) == (struck(
                            grid,
                            s,
                            oxi,
                            oyi,
                            wrap,
                            ri,
                            ci,
                            k,
                        ) || (struck_here && k == here)) by {
                        lemma_struck_column(grid, s, oxi, oyi, wrap, ri, ci, k);
                    }
                    if struck_here {
                        assert(struck(grid, s, oxi, oyi, wrap, ri, ci + 1, here));
                    } else if collided_before {
                        let k = choose|k: usize| struck(grid, s, oxi, oyi, wrap, ri, ci, k);
                        assert(struck(grid, s, oxi, oyi, wrap, ri, ci + 1, k));
                    }
                    let marked = Set::new(|k: usize| track && struck(grid, s, oxi, oyi, wrap, ri, ci, k));
                    let marked_next = Set::new(
                        |k: usize| track && struck(grid, s, oxi, oyi, wrap, ri, ci + 1, k),
                    );
                    if struck_here && track {
                        assert(marked_next =~= marked.insert(here));
                    } else {
                        assert(marked_next =~= marked);
                    }
                }
                c += 1;
            }
            proof {
                let s = sprite@;
                let (oxi, oyi, ri) = (ox as int, oy as int, r as nat);
                assert forall|x: int, y: int| 0 <= x < 64 && 0 <= y < 32 implies lit(
                    self.buffer[y],
                ).contains(x) == #[trigger] cell(grid, s, oxi, oyi, wrap, ri + 1, 0, x, y) by {
                    assert(lit(self.buffer[y]).contains(x) == cell(
                        grid,
                        s,
                        oxi,
                        oyi,
                        wrap,
                        ri,
                        columns as int,
                        x,
                        y,
                    ));
                    lemma_cell_row_done(grid, s, oxi, oyi, wrap, ri, x, y);
                }
                assert forall|k: usize|
                    #![trigger struck(grid, s, oxi, oyi, wrap, ri + 1, 0, k)]
                    struck(grid, s, oxi, oyi, wrap, ri + 1, 0, k) == struck(
                        grid,
                        s,
                        oxi,
                        oyi,
                        wrap,
                        ri,
                        columns as int,
                        k,
                    ) by {
                    lemma_struck_row_done(grid, s, oxi, oyi, wrap, ri, k);
                }
                if collided {
                    let k = choose|k: usize| struck(grid, s, oxi, oyi, wrap, ri, columns as int, k);
                    assert(struck(grid, s, oxi, oyi, wrap, ri + 1, 0, k));
                }
                assert(Set::new(|k: usize| track && struck(grid, s, oxi, oyi, wrap, ri + 1, 0, k)) =~= Set::new(
                    |k: usize| track && struck(grid, s, oxi, oyi, wrap, ri, columns as int, k),
                ));
            }
            r += 1;
        }
        self.dirty = true;
        proof {
            let s = sprite@;
            let (oxi, oyi) = (ox as int, oy as int);
            let hit = collisions(grid, s, oxi, oyi, wrap, rows as nat);
            assert forall|k: usize| #[trigger] struck(grid, s, oxi, oyi, wrap, rows as nat, 0, k) == hit.contains(k) by {
                reveal(struck);
            }
            assert(Set::new(|k: usize| track && struck(grid, s, oxi, oyi, wrap, rows as nat, 0, k)) =~= if track {
                hit
            } else {
                Set::<usize>::empty()
            });
            if collided {
                let k = choose|k: usize| struck(grid, s, oxi, oyi, wrap, rows as nat, 0, k);
                assert(hit.contains(k));
            }
            if hit != Set::<usize>::empty() {
                assert(!(hit =~= Set::<usize>::empty()));
                let k = choose|k: usize| hit.contains(k);
                assert(struck(grid, s, oxi, oyi, wrap, rows as nat, 0, k));
            }
            let after = draw_pixels(grid, coordinates, s, wrap);
            assert forall|y: int| 0 <= y < 32 implies #[trigger] self.pixels()[y] == after[y] by {
                assert forall|x: int| 0 <= x < 64 implies #[trigger] self.pixels()[y][x] == after[y][x] by {
                    assert(lit(self.buffer[y]).contains(x) == cell(grid, s, oxi, oyi, wrap, rows as nat, 0, x, y));
                    reveal(cell);
                }
                assert(self.pixels()[y] =~= after[y]);
            }
            assert(self.pixels() =~= after);
        }
        collided
    }

    /// A display without a lit pixel, not dirty, with no time stamp.
    #[inline]
    pub fn new(options: Options) -> (display: Self)
        ensures
            display.pixels() == blank_grid(),
            display.changed@ == Map::<usize, Instant>::empty(),
            !display.dirty,
            display.options == options,
    {
        let capacity: usize = if options.track_changes {
            DISPLAY_BUFFER_WIDTH * DISPLAY_BUFFER_HEIGHT
        } else {
            0
        };
        let display = DisplayBuffer {
            buffer: [
                row_blank(), row_blank(), row_blank(), row_blank(), row_blank(), row_blank(), row_blank(), row_blank(),
                row_blank(), row_blank(), row_blank(), row_blank(), row_blank(), row_blank(), row_blank(), row_blank(),
                row_blank(), row_blank(), row_blank(), row_blank(), row_blank(), row_blank(), row_blank(), row_blank(),
                row_blank(), row_blank(), row_blank(), row_blank(), row_blank(), row_blank(), row_blank(), row_blank(),
            ],
            changed: HashMap::with_capacity(capacity),
            dirty: false,
            options,
        };
        assert(display.pixels() =~~= blank_grid());
        display
    }

    /// Whether the pixel in column `x` of row `y` is lit. A pixel that the
    /// display does not have is not.
    pub fn pixel(&self, x: usize, y: usize) -> (on: bool)
        ensures
            on == (x < DISPLAY_BUFFER_WIDTH && y < DISPLAY_BUFFER_HEIGHT && self.pixels()[y as int][x as int]),
    {
        x < DISPLAY_BUFFER_WIDTH && y < DISPLAY_BUFFER_HEIGHT && row_get(&self.buffer[y], x)
    }
}

/// Before any row is drawn, every pixel is as it was and none was struck.
proof fn lemma_nothing_drawn(grid: Seq<Seq<bool>>, sprite: Seq<u8>, ox: int, oy: int, wrap: bool)
    ensures
        forall|x: int, y: int| #[trigger] cell(grid, sprite, ox, oy, wrap, 0, 0, x, y) == grid[y][x],
        forall|k: usize| !#[trigger] struck(grid, sprite, ox, oy, wrap, 0, 0, k),
{
    reveal(cell);
    reveal(struck);
}

/// The column of a sprite that lands on column `x` of the display is `c`
/// where `x` is `c` columns to the right of the origin, around the edge.
proof fn lemma_column_of(ox: int, c: int, x: int)
    requires
        0 <= ox < 64,
        0 <= c < 64,
        0 <= x < 64,
    ensures
        ((x - ox) % 64 == c) <==> (x == (ox + c) % 64),
        0 <= (x - ox) % 64 < 64,
        0 <= (ox + c) % 64 < 64,
{
}

/// A key gives back the column and the row that it was made of.
proof fn lemma_key_parts(k: usize, x: int, y: int)
    requires
        0 <= x < 64,
        0 <= y,
        k == pixel_key(x, y),
    ensures
        k as int % 64 == x,
        k as int / 64 == y,
{
}

/// What drawing column `c` of row `r` does to the pixel `(x, y)`: it flips
/// the pixel under that column if the sprite's bit is set, and no other.
proof fn lemma_cell_column(grid: Seq<Seq<bool>>, sprite: Seq<u8>, ox: int, oy: int, wrap: bool, r: nat, c: int, x: int, y: int)
    requires
        0 <= ox < 64,
        0 <= c < 8,
        0 <= x < 64,
    ensures
        ((ox + c) % 64 - ox) % 64 == c,
        cell(grid, sprite, ox, oy, wrap, r, c + 1, x, y) == (cell(grid, sprite, ox, oy, wrap, r, c, x, y) != (y == (oy
            + r) % 32 && x == (ox + c) % 64 && sprite_bit(sprite[r as int], c))),
        y == (oy + r) % 32 && x == (ox + c) % 64 ==> cell(grid, sprite, ox, oy, wrap, r, c, x, y) == (grid[y][x]
            != flips(sprite, ox, oy, wrap, r, x, y)),
{
    reveal(cell);
    lemma_column_of(ox, c, x);
    lemma_column_of(ox, c, (ox + c) % 64);
    let d = (x - ox) % 64;
    let bit = sprite_bit(sprite[r as int], d);
    assert((d < c + 1 && bit) == ((d < c && bit) != (d == c && bit)));
}

/// Column `c` of row `r` collides where the sprite's bit is set and the pixel
/// under it is lit.
proof fn lemma_struck_here(grid: Seq<Seq<bool>>, sprite: Seq<u8>, ox: int, oy: int, wrap: bool, r: nat, c: int)
    requires
        0 <= ox < 64,
        0 <= oy < 32,
        0 <= c < columns_drawn(ox, wrap),
    ensures
        row_collides(grid, sprite, ox, oy, wrap, r as int, (ox + c) % 64) == (sprite_bit(sprite[r as int], c) && cell(
            grid,
            sprite,
            ox,
            oy,
            wrap,
            r,
            c,
            (ox + c) % 64,
            (oy + r) % 32,
        )),
{
    reveal(cell);
    lemma_column_of(ox, c, (ox + c) % 64);
}

/// What drawing column `c` of row `r` adds to the pixels that were struck:
/// the pixel under that column, if the column collides.
proof fn lemma_struck_column(grid: Seq<Seq<bool>>, sprite: Seq<u8>, ox: int, oy: int, wrap: bool, r: nat, c: int, k: usize)
    requires
        0 <= ox < 64,
        0 <= oy < 32,
        0 <= c < columns_drawn(ox, wrap),
    ensures
        struck(grid, sprite, ox, oy, wrap, r, c + 1, k) == (struck(grid, sprite, ox, oy, wrap, r, c, k) || (k
            == pixel_key((ox + c) % 64, (oy + r) % 32) && row_collides(
            grid,
            sprite,
            ox,
            oy,
            wrap,
            r as int,
            (ox + c) % 64,
        ))),
{
    reveal(struck);
    let x = k as int % 64;
    let cx = (ox + c) % 64;
    let cy = (oy + r) % 32;
    lemma_column_of(ox, c, x);
    lemma_column_of(ox, c, cx);
    if k == pixel_key(cx, cy) {
        lemma_key_parts(k, cx, cy);
    }
    let d = (x - ox) % 64;
    let here = k == pixel_key(x, cy) && row_collides(grid, sprite, ox, oy, wrap, r as int, x);
    assert((d < c + 1 && here) == ((d < c && here) || (d == c && here)));
}

/// Once all columns of row `r` are drawn, the pixels are those after the
/// first `r + 1` rows.
proof fn lemma_cell_row_done(grid: Seq<Seq<bool>>, sprite: Seq<u8>, ox: int, oy: int, wrap: bool, r: nat, x: int, y: int)
    ensures
        cell(grid, sprite, ox, oy, wrap, r + 1, 0, x, y) == cell(grid, sprite, ox, oy, wrap, r, columns_drawn(ox, wrap), x, y),
{
    reveal(cell);
}

/// Once all columns of row `r` are drawn, the collisions are those of the
/// first `r + 1` rows.
proof fn lemma_struck_row_done(grid: Seq<Seq<bool>>, sprite: Seq<u8>, ox: int, oy: int, wrap: bool, r: nat, k: usize)
    ensures
        struck(grid, sprite, ox, oy, wrap, r + 1, 0, k) == struck(
            grid,
            sprite,
            ox,
            oy,
            wrap,
            r,
            columns_drawn(ox, wrap),
            k,
        ),
{
    reveal(struck);
    let x = k as int % 64;
    let next = collisions(grid, sprite, ox, oy, wrap, r + 1);
    let done = collisions(grid, sprite, ox, oy, wrap, r);
    if next.contains(k) {
        let w = choose|w: int|
            0 <= w < r + 1 && k == pixel_key(x, (oy + w) % 32) && #[trigger] row_collides(
                grid,
                sprite,
                ox,
                oy,
                wrap,
                w,
                x,
            );
        if w < r {
            assert(done.contains(k));
        }
    }
    if done.contains(k) {
        let w = choose|w: int|
            0 <= w < r && k == pixel_key(x, (oy + w) % 32) && #[trigger] row_collides(
                grid,
                sprite,
                ox,
                oy,
                wrap,
                w,
                x,
            );
        assert(next.contains(k));
    }
    if k == pixel_key(x, (oy + r) % 32) && row_collides(grid, sprite, ox, oy, wrap, r as int, x) {
        assert(next.contains(k));
    }
}

/// The pressed and released keys of the key pad.
pub struct KeyboardState([bool; KEY_COUNT]);

impl View for KeyboardState {
    type V = Seq<bool>;

    /// One flag for each key, in the order of the keys.
    closed spec fn view(&self) -> Seq<bool> {
        self.0@
    }
}

impl KeyboardState {
    /// The lowest key that is pressed in `keys`, if any is.
    pub open spec fn first_pressed(keys: Seq<bool>) -> Option<usize> {
        if exists|k: int| 0 <= k < keys.len() && keys[k] {
            let k = choose|k: int|
                0 <= k < keys.len() && keys[k] && forall|j: int| 0 <= j < k ==> !keys[j];
            Some(k as usize)
        } else {
            None
        }
    }

    /// Marks `key` as pressed.
    #[inline]
    pub fn hold(&mut self, key: usize)
        requires
            key < KEY_COUNT,
        ensures
            final(self)@ == old(self)@.update(key as int, true),
    {
        self.0[key] = true;
    }

    /// A key pad on which no key is pressed.
    #[inline]
    pub fn new() -> (keys: Self)
        ensures
            keys@ == Seq::new(KEY_COUNT as nat, |k: int| false),
    {
        KeyboardState([false; KEY_COUNT])
    }

    /// Whether `key` is pressed. A key that the pad does not have is not.
    #[inline]
    pub fn pressed(&self, key: usize) -> (down: bool)
        ensures
            self@.len() == KEY_COUNT,
            down == (key < KEY_COUNT && self@[key as int]),
    {
        key < KEY_COUNT && self.0[key]
    }

    /// The lowest key that is pressed, if any is.
    #[inline]
    pub fn pressed_key(&self) -> (key: Option<usize>)
        ensures
            self@.len() == KEY_COUNT,
            key == Self::first_pressed(self@),
            match key {
                Some(k) => k < KEY_COUNT && self@[k as int] && forall|j: int| 0 <= j < k ==> !self@[j],
                None => forall|j: int| 0 <= j < KEY_COUNT ==> !self@[j],
            },
    {
        let mut k: usize = 0;
        while k < KEY_COUNT
            invariant
                k <= KEY_COUNT,
                forall|j: int| 0 <= j < k ==> !self@[j],
            decreases KEY_COUNT - k,
        {
            if self.0[k] {
                proof {
                    Self::first_pressed_is_lowest(self@, k as int);
                }
                return Some(k);
            }
            k += 1;
        }
        None
    }

    /// Marks `key` as released.
    #[inline]
    pub fn release(&mut self, key: usize)
        requires
            key < KEY_COUNT,
        ensures
            final(self)@ == old(self)@.update(key as int, false),
    {
        self.0[key] = false;
    }

    /// A pressed key below which none is pressed is the one that
    /// `first_pressed` names.
    pub proof fn first_pressed_is_lowest(keys: Seq<bool>, k: int)
        requires
            0 <= k < keys.len(),
            k <= usize::MAX,
            keys[k],
            forall|j: int| 0 <= j < k ==> !keys[j],
        ensures
            Self::first_pressed(keys) == Some(k as usize),
    {
        let found = choose|c: int|
            0 <= c < keys.len() && keys[c] && forall|j: int| 0 <= j < c ==> !keys[j];
        assert(found == k) by {
            if found < k {
                assert(!keys[found]);
            }
            if k < found {
                assert(!keys[k]);
            }
        }
    }
}

} // verus!
