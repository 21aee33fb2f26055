//! What drawing a sprite does to a grid of pixels.
//!
//! A grid is a sequence of 32 rows of 64 pixels each, `grid[y][x]` being the
//! pixel in column `x` of row `y`. A sprite is a sequence of bytes, one for
//! each of its rows, the most significant bit leftmost. Drawing flips every
//! pixel under a set bit. Where sprite rows overlap, which takes a sprite of
//! more than 32 rows that wraps around, a pixel is flipped once for each row
//! that covers it, in the order of the rows.

use vstd::prelude::*;

verus! {

/// The place value of bit `c` of a sprite byte, bit 0 being the leftmost.
pub open spec fn bit_weight(c: int) -> int {
    if c == 0 {
        128
    } else if c == 1 {
        64
    } else if c == 2 {
        32
    } else if c == 3 {
        16
    } else if c == 4 {
        8
    } else if c == 5 {
        4
    } else if c == 6 {
        2
    } else {
        1
    }
}

/// Whether bit `c` of a sprite byte is set, bit 0 being the most significant.
pub open spec fn sprite_bit(byte: u8, c: int) -> bool {
    0 <= c < 8 && (byte as int / bit_weight(c)) % 2 == 1
}

/// The number of sprite rows that are drawn from row `oy` of the display:
/// all of them where sprites wrap, else those above the bottom edge.
pub open spec fn rows_drawn(len: nat, oy: int, wrap: bool) -> nat {
    if wrap || oy + len <= 32 {
        len
    } else {
        (32 - oy) as nat
    }
}

/// The number of sprite columns that are drawn from column `ox` of the
/// display: all eight where sprites wrap, else those left of the right edge.
pub open spec fn columns_drawn(ox: int, wrap: bool) -> int {
    if wrap || ox + 8 <= 64 {
        8
    } else {
        64 - ox
    }
}

/// Whether row `r` of the sprite, drawn from `(ox, oy)`, flips the pixel
/// `(px, py)`.
pub open spec fn row_flips(sprite: Seq<u8>, ox: int, oy: int, wrap: bool, r: int, px: int, py: int) -> bool {
    &&& (oy + r) % 32 == py
    &&& (px - ox) % 64 < columns_drawn(ox, wrap)
    &&& sprite_bit(sprite[r], (px - ox) % 64)
}

/// Whether the first `rows` rows of the sprite flip the pixel `(px, py)` an
/// odd number of times.
pub open spec fn flips(sprite: Seq<u8>, ox: int, oy: int, wrap: bool, rows: nat, px: int, py: int) -> bool
    decreases rows,
{
    if rows == 0 {
        false
    } else {
        flips(sprite, ox, oy, wrap, (rows - 1) as nat, px, py) != row_flips(
            sprite,
            ox,
            oy,
            wrap,
            rows - 1,
            px,
            py,
        )
    }
}

/// Whether row `r` of the sprite collides in column `px`: it flips a pixel
/// that is lit when the row is drawn, after the rows before it.
pub open spec fn row_collides(
    grid: Seq<Seq<bool>>,
    sprite: Seq<u8>,
    ox: int,
    oy: int,
    wrap: bool,
    r: int,
    px: int,
) -> bool {
    let py = (oy + r) % 32;
    &&& 0 <= px < 64
    &&& row_flips(sprite, ox, oy, wrap, r, px, py)
    &&& grid[py][px] != flips(sprite, ox, oy, wrap, r as nat, px, py)
}

/// The number that stands for the pixel `(x, y)` where pixels are counted
/// row by row.
pub open spec fn pixel_key(x: int, y: int) -> int {
    y * 64 + x
}

/// The grid after the first `rows` rows of the sprite were drawn from
/// `(ox, oy)`.
pub open spec fn blit(grid: Seq<Seq<bool>>, sprite: Seq<u8>, ox: int, oy: int, wrap: bool, rows: nat) -> Seq<
    Seq<bool>,
> {
    Seq::new(
        32,
        |y: int| Seq::new(64, |x: int| grid[y][x] != flips(sprite, ox, oy, wrap, rows, x, y)),
    )
}

/// The pixels, by their keys, at which one of the first `rows` rows of the
/// sprite collided.
pub open spec fn collisions(
    grid: Seq<Seq<bool>>,
    sprite: Seq<u8>,
    ox: int,
    oy: int,
    wrap: bool,
    rows: nat,
) -> Set<usize> {
    Set::new(
        |k: usize|
            exists|r: int|
                0 <= r < rows && k == pixel_key(k as int % 64, (oy + r) % 32) && #[trigger] row_collides(
                    grid,
                    sprite,
                    ox,
                    oy,
                    wrap,
                    r,
                    k as int % 64,
                ),
    )
}

/// The grid after a sprite was drawn at `coordinates`, which are taken
/// modulo the size of the display.
pub open spec fn draw_pixels(
    grid: Seq<Seq<bool>>,
    coordinates: (usize, usize),
    sprite: Seq<u8>,
    wrap: bool,
) -> Seq<Seq<bool>> {
    let ox = coordinates.0 as int % 64;
    let oy = coordinates.1 as int % 32;
    blit(grid, sprite, ox, oy, wrap, rows_drawn(sprite.len(), oy, wrap))
}

/// The pixels, by their keys, at which a sprite drawn at `coordinates`
/// collides.
pub open spec fn draw_collisions(
    grid: Seq<Seq<bool>>,
    coordinates: (usize, usize),
    sprite: Seq<u8>,
    wrap: bool,
) -> Set<usize> {
    let ox = coordinates.0 as int % 64;
    let oy = coordinates.1 as int % 32;
    collisions(grid, sprite, ox, oy, wrap, rows_drawn(sprite.len(), oy, wrap))
}

/// Whether `grid` has the shape of the display: 32 rows of 64 pixels.
pub open spec fn display_shaped(grid: Seq<Seq<bool>>) -> bool {
    &&& grid.len() == 32
    &&& forall|y: int| 0 <= y < 32 ==> (#[trigger] grid[y]).len() == 64
}

/// A grid without a lit pixel.
pub open spec fn blank_grid() -> Seq<Seq<bool>> {
    Seq::new(32, |y: int| Seq::new(64, |x: int| false))
}

/// Rows of a sprite of which at most 32 are drawn do not meet: a pixel is
/// flipped where the one row that lands on its row of the display has a set
/// bit over it.
pub proof fn lemma_flips_without_overlap(
    sprite: Seq<u8>,
    ox: int,
    oy: int,
    wrap: bool,
    rows: nat,
    px: int,
    py: int,
)
    requires
        0 <= oy < 32,
        0 <= py < 32,
        rows <= 32,
    ensures
        flips(sprite, ox, oy, wrap, rows, px, py) == ((py - oy) % 32 < rows && row_flips(
            sprite,
            ox,
            oy,
            wrap,
            (py - oy) % 32,
            px,
            py,
        )),
    decreases rows,
{
    if rows > 0 {
        lemma_flips_without_overlap(sprite, ox, oy, wrap, (rows - 1) as nat, px, py);
        let r = (py - oy) % 32;
        assert((oy + (rows - 1)) % 32 == py <==> r == rows - 1);
    }
}

/// A row of a sprite of which at most 32 rows are drawn collides where it
/// flips a pixel that was lit before the sprite was drawn.
pub proof fn lemma_collides_without_overlap(
    grid: Seq<Seq<bool>>,
    sprite: Seq<u8>,
    ox: int,
    oy: int,
    wrap: bool,
    r: int,
    px: int,
)
    requires
        0 <= oy < 32,
        0 <= r < 32,
    ensures
        row_collides(grid, sprite, ox, oy, wrap, r, px) == (0 <= px < 64 && row_flips(
            sprite,
            ox,
            oy,
            wrap,
            r,
            px,
            (oy + r) % 32,
        ) && grid[(oy + r) % 32][px]),
{
    let py = (oy + r) % 32;
    lemma_flips_without_overlap(sprite, ox, oy, wrap, r as nat, px, py);
    assert((py - oy) % 32 == r);
}

/// A sprite whose bytes are all zero flips no pixel, whatever the rows.
pub proof fn lemma_zero_sprite_flips_nothing(
    sprite: Seq<u8>,
    ox: int,
    oy: int,
    wrap: bool,
    rows: nat,
    px: int,
    py: int,
)
    requires
        rows <= sprite.len(),
        forall|i: int| 0 <= i < sprite.len() ==> sprite[i] == 0,
    ensures
        !flips(sprite, ox, oy, wrap, rows, px, py),
    decreases rows,
{
    if rows > 0 {
        lemma_zero_sprite_flips_nothing(sprite, ox, oy, wrap, (rows - 1) as nat, px, py);
        assert(sprite[rows - 1] == 0);
        let c = (px - ox) % 64;
        assert(0int / bit_weight(c) == 0);
    }
}

/// Drawing a sprite whose bytes are all zero reports no collision and leaves
/// every pixel as it was.
pub proof fn lemma_zero_sprite_draws_nothing(
    grid: Seq<Seq<bool>>,
    coordinates: (usize, usize),
    sprite: Seq<u8>,
    wrap: bool,
)
    requires
        display_shaped(grid),
        forall|i: int| 0 <= i < sprite.len() ==> sprite[i] == 0,
    ensures
        draw_collisions(grid, coordinates, sprite, wrap) == Set::<usize>::empty(),
        draw_pixels(grid, coordinates, sprite, wrap) == grid,
{
    let ox = coordinates.0 as int % 64;
    let oy = coordinates.1 as int % 32;
    let rows = rows_drawn(sprite.len(), oy, wrap);
    let hit = draw_collisions(grid, coordinates, sprite, wrap);
    assert forall|k: usize| !hit.contains(k) by {
        if hit.contains(k) {
            let r = choose|r: int|
                0 <= r < rows && k == pixel_key(k as int % 64, (oy + r) % 32) && #[trigger] row_collides(
                    grid,
                    sprite,
                    ox,
                    oy,
                    wrap,
                    r,
                    k as int % 64,
                );
            assert(sprite[r] == 0);
            let c = (k as int % 64 - ox) % 64;
            assert(0int / bit_weight(c) == 0);
        }
    }
    assert(hit =~= Set::<usize>::empty());
    let after = draw_pixels(grid, coordinates, sprite, wrap);
    assert forall|y: int| 0 <= y < 32 implies #[trigger] after[y] == grid[y] by {
        assert forall|x: int| 0 <= x < 64 implies #[trigger] after[y][x] == grid[y][x] by {
            lemma_zero_sprite_flips_nothing(sprite, ox, oy, wrap, rows, x, y);
        }
        assert(after[y] =~= grid[y]);
    }
    assert(after =~= grid);
}

/// Drawing the same sprite at the same place twice gives back the grid that
/// was there before the first draw.
pub proof fn lemma_draw_twice_restores(
    grid: Seq<Seq<bool>>,
    coordinates: (usize, usize),
    sprite: Seq<u8>,
    wrap: bool,
)
    requires
        display_shaped(grid),
    ensures
        draw_pixels(draw_pixels(grid, coordinates, sprite, wrap), coordinates, sprite, wrap) == grid,
{
    let once = draw_pixels(grid, coordinates, sprite, wrap);
    let twice = draw_pixels(once, coordinates, sprite, wrap);
    assert forall|y: int| 0 <= y < 32 implies #[trigger] twice[y] == grid[y] by {
        assert forall|x: int| 0 <= x < 64 implies #[trigger] twice[y][x] == grid[y][x] by {
            assert(once[y][x] == (grid[y][x] != flips(
                sprite,
                coordinates.0 as int % 64,
                coordinates.1 as int % 32,
                wrap,
                rows_drawn(sprite.len(), coordinates.1 as int % 32, wrap),
                x,
                y,
            )));
        }
        assert(twice[y] =~= grid[y]);
    }
    assert(twice =~= grid);
}

} // verus!
