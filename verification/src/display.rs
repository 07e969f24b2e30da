//! The framebuffer: a 64x32 grid of pixels that are on or off, drawn on
//! by XOR-ing sprites of eight pixels per row. Coordinates wrap around
//! both edges.

use vstd::arithmetic::div_mod::{
    lemma_add_mod_noop, lemma_add_mod_noop_right, lemma_fundamental_div_mod,
    lemma_fundamental_div_mod_converse, lemma_mod_bound, lemma_mod_equivalence, lemma_small_mod,
};
use vstd::arithmetic::power2::{lemma2_to64, pow2};
use vstd::prelude::*;

verus! {

/// Pixels per row.
pub const DISPLAY_WIDTH: usize = 64;

/// Rows on the screen.
pub const DISPLAY_HEIGHT: usize = 32;

/// Pixels on the screen.
pub const PIXEL_COUNT: usize = 2048;

/// Pixels in one row of a sprite.
pub const SPRITE_WIDTH: usize = 8;

/// Place in the row-major grid of the pixel that the coordinates
/// `(x, y)` name once they are wrapped around the screen's edges.
pub open spec fn pixel_index(x: int, y: int) -> int {
    x % 64 + (y % 32) * 64
}

/// A screen on which every pixel is off.
pub open spec fn blank() -> Seq<bool> {
    Seq::new(PIXEL_COUNT as nat, |p: int| false)
}

/// Whether `row` has the pixel of column `column` set. Column 0 is the
/// leftmost one and is held by the most significant bit.
pub open spec fn sprite_bit(row: u8, column: int) -> bool {
    row & (0x80u8 >> (column as u8)) != 0
}

/// Whether the sprite sets its cell number `c`. Cells are counted row
/// by row, eight to a row, from the top left.
pub open spec fn cell_set(rows: Seq<u8>, c: int) -> bool {
    sprite_bit(rows[c / 8], c % 8)
}

/// Number of cells of a sprite: eight for each of its rows.
pub open spec fn cell_count(rows: Seq<u8>) -> int {
    8 * (rows.len() as int)
}

/// Place in the grid on which cell `c` of a sprite drawn at `(x, y)`
/// lands.
pub open spec fn cell_target(x: int, y: int, c: int) -> int {
    pixel_index(x + c % 8, y + c / 8)
}

/// Whether the first `k` cells of the sprite flip pixel `p`: whether an
/// odd number of set cells among them lands on it.
pub open spec fn flips(x: int, y: int, rows: Seq<u8>, k: int, p: int) -> bool
    decreases k,
{
    if k <= 0 {
        false
    } else {
        flips(x, y, rows, k - 1, p) != (cell_set(rows, k - 1) && cell_target(x, y, k - 1) == p)
    }
}

/// The grid after the first `k` cells of the sprite have been XOR-ed
/// onto `grid`.
pub open spec fn drawn(grid: Seq<bool>, x: int, y: int, rows: Seq<u8>, k: int) -> Seq<bool> {
    Seq::new(grid.len(), |p: int| grid[p] != flips(x, y, rows, k, p))
}

/// Whether one of the first `k` cells of the sprite turns off a pixel
/// that was on when the cell was drawn.
pub open spec fn erases(grid: Seq<bool>, x: int, y: int, rows: Seq<u8>, k: int) -> bool {
    exists|c: int|
        0 <= c < k && #[trigger] cell_set(rows, c) && drawn(grid, x, y, rows, c)[cell_target(
            x,
            y,
            c,
        )]
}

/// The 64x32 pixels of the machine's screen, row by row from the top
/// left.
pub struct Display {
    pixels: [bool; 2048],
}

impl View for Display {
    type V = Seq<bool>;

    closed spec fn view(&self) -> Seq<bool> {
        self.pixels@
    }
}

impl Display {
    /// Every screen has exactly 2048 pixels.
    pub proof fn lemma_size(&self)
        ensures
            self@.len() == PIXEL_COUNT,
    {
    }

    /// A screen with every pixel off.
    pub fn new() -> (display: Display)
        ensures
            display@ == blank(),
    {
        let display = Display { pixels: [false; 2048] };
        assert(display@ =~= blank());
        display
    }

    /// Clears the display
    pub fn clear(&mut self)
        ensures
            final(self)@ == blank(),
            forall|x: int, y: int| !final(self)@[#[trigger] pixel_index(x, y)],
    {
        self.pixels = [false; 2048];
        assert(self@ =~= blank());
        assert forall|x: int, y: int| !self@[#[trigger] pixel_index(x, y)] by {
            lemma_pixel_index_range(x, y);
        }
    }

    /// Wraps coordinates around the display in both x and y
    pub fn get_wrapped_coordinates(x: usize, y: usize) -> (wrapped: (usize, usize))
        ensures
            wrapped.0 == x % 64,
            wrapped.1 == y % 32,
            wrapped.0 < DISPLAY_WIDTH,
            wrapped.1 < DISPLAY_HEIGHT,
    {
        (x % DISPLAY_WIDTH, y % DISPLAY_HEIGHT)
    }

    /// Given the coordinates of a pixel on the display, calculate the index
    /// of the pixel in the grid. The coordinates must be wrapped already.
    fn coordinate_to_index(x: usize, y: usize) -> (index: usize)
        requires
            x < DISPLAY_WIDTH,
            y < DISPLAY_HEIGHT,
        ensures
            index == x + y * 64,
            index == pixel_index(x as int, y as int),
            index < PIXEL_COUNT,
    {
        proof {
            lemma_small_mod(x as nat, 64);
            lemma_small_mod(y as nat, 32);
        }
        x + (y * DISPLAY_WIDTH)
    }

    /// Whether `line` sets the pixel of column `column`.
    fn sprite_pixel(line: u8, column: usize) -> (set: bool)
        requires
            column < SPRITE_WIDTH,
        ensures
            set == sprite_bit(line, column as int),
    {
        // The selector is a one bit mask that is used to extract the
        // value of the sprite at this coordinate
        let selector = 0b1000_0000u8 >> (column as u8);
        line & selector != 0
    }

    /// Whether the pixel at `(x, y)`, wrapped around the edges, is on.
    pub fn pixel(&self, x: usize, y: usize) -> (on: bool)
        ensures
            on == self@[pixel_index(x as int, y as int)],
    {
        let (wrapped_x, wrapped_y) = Display::get_wrapped_coordinates(x, y);
        self.pixels[Display::coordinate_to_index(wrapped_x, wrapped_y)]
    }

    /// The whole grid, row by row from the top left.
    pub fn pixels(&self) -> (grid: &[bool])
        ensures
            grid@ == self@,
    {
        self.pixels.as_slice()
    }

    /// The place in the grid of the cell in column `column` of row `row`
    /// of a sprite drawn at `(x, y)`.
    fn cell_place(x: usize, y: usize, row: usize, column: usize) -> (index: usize)
        requires
            x < DISPLAY_WIDTH,
            y < DISPLAY_HEIGHT,
            column < SPRITE_WIDTH,
        ensures
            index == cell_target(x as int, y as int, 8 * row + column),
            index < PIXEL_COUNT,
    {
        let (wrapped_x, wrapped_y) = Display::get_wrapped_coordinates(
            x + column,
            y + row % DISPLAY_HEIGHT,
        );
        proof {
            lemma_cell_place(x as int, y as int, row as int, column as int);
        }
        Display::coordinate_to_index(wrapped_x, wrapped_y)
    }

    /// Draws sprite at specified coordinate
    /// The return value will be true if this draw operation causes any pixel
    /// to be erased
    pub fn draw_sprite(&mut self, x: usize, y: usize, sprite_data: &[u8]) -> (pixels_erased: bool)
        ensures
            final(self)@ == drawn(
                old(self)@,
                x as int,
                y as int,
                sprite_data@,
                cell_count(sprite_data@),
            ),
            pixels_erased == erases(
                old(self)@,
                x as int,
                y as int,
                sprite_data@,
                cell_count(sprite_data@),
            ),
    {
        let ghost grid = self@;
        let ghost rows = sprite_data@;
        let (start_x, start_y) = Display::get_wrapped_coordinates(x, y);
        let ghost at_x = start_x as int;
        let ghost at_y = start_y as int;
        let height = sprite_data.len();
        let mut pixels_erased = false;
        let mut i: usize = 0;
        proof {
            assert(self@ =~= drawn(grid, at_x, at_y, rows, 0));
        }
        while i < height
            invariant
                height == rows.len(),
                rows == sprite_data@,
                grid.len() == PIXEL_COUNT,
                i <= height,
                start_x < DISPLAY_WIDTH,
                start_y < DISPLAY_HEIGHT,
                at_x == start_x,
                at_y == start_y,
                self@ == drawn(grid, at_x, at_y, rows, 8 * i),
                pixels_erased == erases(grid, at_x, at_y, rows, 8 * i),
            decreases height - i,
        {
            let line = sprite_data[i];
            let mut j: usize = 0;
            while j < SPRITE_WIDTH
                invariant
                    height == rows.len(),
                    rows == sprite_data@,
                    grid.len() == PIXEL_COUNT,
                    i < height,
                    j <= SPRITE_WIDTH,
                    line == rows[i as int],
                    start_x < DISPLAY_WIDTH,
                    start_y < DISPLAY_HEIGHT,
                    at_x == start_x,
                    at_y == start_y,
                    self@ == drawn(grid, at_x, at_y, rows, 8 * i + j),
                    pixels_erased == erases(grid, at_x, at_y, rows, 8 * i + j),
                decreases SPRITE_WIDTH - j,
            {
                let ghost c = 8 * i + j;
                let pixel_index = Display::cell_place(start_x, start_y, i, j);
                let sprite_pixel = Display::sprite_pixel(line, j);
                let display_pixel = self.pixels[pixel_index];
                proof {
                    lemma_cell_split(i as int, j as int);
                    lemma_drawn_step(grid, at_x, at_y, rows, c);
                    lemma_erases_step(grid, at_x, at_y, rows, c);
                }

                if sprite_pixel {
                    if display_pixel {
                        pixels_erased = true;
                    }
                    self.pixels[pixel_index] = !display_pixel;
                }
                j += 1;
            }
            i += 1;
        }
        proof {
            lemma_draw_wraps(grid, x as int, y as int, at_x, at_y, rows, cell_count(rows));
        }
        pixels_erased
    }
}

/// The pixel of column `column` is set where the bit of weight
/// `2^(7 - column)` is: the byte, divided by that weight, is odd.
pub proof fn lemma_sprite_bit(row: u8, column: int)
    requires
        0 <= column < 8,
    ensures
        sprite_bit(row, column) <==> (row as int / pow2((7 - column) as nat) as int) % 2 == 1,
{
    let j = column as u8;
    let weight = 0x80u8 >> j;
    assert((row & weight != 0) <==> (row / weight) % 2 == 1) by (bit_vector)
        requires
            j < 8,
            weight == 0x80u8 >> j,
    ;
    assert(weight == pow2((7 - column) as nat)) by {
        lemma2_to64();
        assert(0x80u8 >> 0u8 == 128) by (bit_vector);
        assert(0x80u8 >> 1u8 == 64) by (bit_vector);
        assert(0x80u8 >> 2u8 == 32) by (bit_vector);
        assert(0x80u8 >> 3u8 == 16) by (bit_vector);
        assert(0x80u8 >> 4u8 == 8) by (bit_vector);
        assert(0x80u8 >> 5u8 == 4) by (bit_vector);
        assert(0x80u8 >> 6u8 == 2) by (bit_vector);
        assert(0x80u8 >> 7u8 == 1) by (bit_vector);
    }
}

/// A wrapped pair of coordinates names a place inside the grid.
pub proof fn lemma_pixel_index_range(x: int, y: int)
    ensures
        0 <= pixel_index(x, y) < PIXEL_COUNT,
{
    lemma_mod_bound(x, 64);
    lemma_mod_bound(y, 32);
}

/// Wrapping a sum is wrapping the sum of the wrapped parts, or of one
/// wrapped part and the other part.
proof fn lemma_wrap_sum(a: int, b: int, m: int)
    requires
        m > 0,
    ensures
        (a % m + b % m) % m == (a + b) % m,
        (a % m + b) % m == (a + b) % m,
{
    lemma_add_mod_noop(a, b, m);
    lemma_add_mod_noop_right(b, a, m);
    assert(b + a % m == a % m + b);
    assert(b + a == a + b);
}

/// Two numbers that wrap to the same place still do so when the same
/// number is added to both.
proof fn lemma_same_wrap(a1: int, a2: int, b: int, m: int)
    requires
        m > 0,
        a1 % m == a2 % m,
    ensures
        (a1 + b) % m == (a2 + b) % m,
{
    lemma_wrap_sum(a1, b, m);
    lemma_wrap_sum(a2, b, m);
}

/// Two steps of less than a whole turn that end at the same place are
/// the same step.
proof fn lemma_same_step(a: int, d1: int, d2: int, m: int)
    requires
        m > 0,
        0 <= d1 < m,
        0 <= d2 < m,
        (a + d1) % m == (a + d2) % m,
    ensures
        d1 == d2,
{
    if d1 >= d2 {
        lemma_mod_equivalence(a + d1, a + d2, m);
        assert((a + d1) - (a + d2) == d1 - d2);
        lemma_small_mod((d1 - d2) as nat, m as nat);
    } else {
        lemma_mod_equivalence(a + d2, a + d1, m);
        assert((a + d2) - (a + d1) == d2 - d1);
        lemma_small_mod((d2 - d1) as nat, m as nat);
    }
}

/// Cell `8 * i + j` is the cell in column `j` of row `i`.
proof fn lemma_cell_split(i: int, j: int)
    requires
        0 <= j < 8,
    ensures
        (8 * i + j) / 8 == i,
        (8 * i + j) % 8 == j,
{
    lemma_fundamental_div_mod_converse(8 * i + j, 8, i, j);
}

/// The row and the column of a cell, from its number.
proof fn lemma_cell_row_column(c: int)
    requires
        0 <= c,
    ensures
        c == 8 * (c / 8) + c % 8,
        0 <= c % 8 < 8,
        0 <= c / 8,
        8 * (c / 8) <= c,
{
    lemma_fundamental_div_mod(c, 8);
    lemma_mod_bound(c, 8);
}

/// Cell `j` of row `i` lands where the start, moved `j` to the right
/// and `i` wrapped rows down and wrapped again, lies.
proof fn lemma_cell_place(x: int, y: int, i: int, j: int)
    requires
        0 <= j < 8,
    ensures
        cell_target(x, y, 8 * i + j) == (x + j) % 64 + ((y + i % 32) % 32) * 64,
{
    lemma_cell_split(i, j);
    lemma_add_mod_noop_right(y, i, 32);
}

/// Drawing one more cell flips the pixel it lands on if the cell is set,
/// and changes nothing otherwise.
proof fn lemma_drawn_step(grid: Seq<bool>, x: int, y: int, rows: Seq<u8>, k: int)
    requires
        0 <= k,
        grid.len() == PIXEL_COUNT,
    ensures
        drawn(grid, x, y, rows, k + 1) == if cell_set(rows, k) {
            drawn(grid, x, y, rows, k).update(
                cell_target(x, y, k),
                !drawn(grid, x, y, rows, k)[cell_target(x, y, k)],
            )
        } else {
            drawn(grid, x, y, rows, k)
        },
{
    let before = drawn(grid, x, y, rows, k);
    let after = drawn(grid, x, y, rows, k + 1);
    let target = cell_target(x, y, k);
    lemma_pixel_index_range(x + k % 8, y + k / 8);
    if cell_set(rows, k) {
        assert(after =~= before.update(target, !before[target]));
    } else {
        assert(after =~= before);
    }
}

/// Drawing one more cell: the verdict so far stands, and the new cell
/// erases when it is set and lands on a pixel that is on.
proof fn lemma_erases_step(grid: Seq<bool>, x: int, y: int, rows: Seq<u8>, k: int)
    requires
        0 <= k,
    ensures
        erases(grid, x, y, rows, k + 1) == (erases(grid, x, y, rows, k) || (cell_set(rows, k)
            && drawn(grid, x, y, rows, k)[cell_target(x, y, k)])),
{
    if erases(grid, x, y, rows, k + 1) {
        let c = choose|c: int|
            0 <= c < k + 1 && #[trigger] cell_set(rows, c) && drawn(grid, x, y, rows, c)[cell_target(
                x,
                y,
                c,
            )];
        if c < k {
            assert(erases(grid, x, y, rows, k));
        }
    }
    if erases(grid, x, y, rows, k) {
        let c = choose|c: int|
            0 <= c < k && #[trigger] cell_set(rows, c) && drawn(grid, x, y, rows, c)[cell_target(
                x,
                y,
                c,
            )];
        assert(0 <= c < k + 1 && cell_set(rows, c));
    }
}

/// Positions that wrap to the same place put every cell on the same
/// pixel.
proof fn lemma_target_wrapped(x1: int, y1: int, x2: int, y2: int, c: int)
    requires
        x1 % 64 == x2 % 64,
        y1 % 32 == y2 % 32,
    ensures
        cell_target(x1, y1, c) == cell_target(x2, y2, c),
{
    lemma_same_wrap(x1, x2, c % 8, 64);
    lemma_same_wrap(y1, y2, c / 8, 32);
}

/// Positions that wrap to the same place flip the same pixels.
proof fn lemma_flips_wrapped(x1: int, y1: int, x2: int, y2: int, rows: Seq<u8>, k: int, p: int)
    requires
        x1 % 64 == x2 % 64,
        y1 % 32 == y2 % 32,
    ensures
        flips(x1, y1, rows, k, p) == flips(x2, y2, rows, k, p),
    decreases k,
{
    if k > 0 {
        lemma_flips_wrapped(x1, y1, x2, y2, rows, k - 1, p);
        lemma_target_wrapped(x1, y1, x2, y2, k - 1);
    }
}

/// Positions that wrap to the same place give the same grid.
proof fn lemma_drawn_wrapped(
    grid: Seq<bool>,
    x1: int,
    y1: int,
    x2: int,
    y2: int,
    rows: Seq<u8>,
    k: int,
)
    requires
        x1 % 64 == x2 % 64,
        y1 % 32 == y2 % 32,
    ensures
        drawn(grid, x1, y1, rows, k) == drawn(grid, x2, y2, rows, k),
{
    assert forall|p: int| flips(x1, y1, rows, k, p) == flips(x2, y2, rows, k, p) by {
        lemma_flips_wrapped(x1, y1, x2, y2, rows, k, p);
    }
    assert(drawn(grid, x1, y1, rows, k) =~= drawn(grid, x2, y2, rows, k));
}

/// A draw that erases at one position erases at every position that
/// wraps to the same place.
proof fn lemma_erases_wrapped(
    grid: Seq<bool>,
    x1: int,
    y1: int,
    x2: int,
    y2: int,
    rows: Seq<u8>,
    k: int,
)
    requires
        x1 % 64 == x2 % 64,
        y1 % 32 == y2 % 32,
        erases(grid, x1, y1, rows, k),
    ensures
        erases(grid, x2, y2, rows, k),
{
    let c = choose|c: int|
        0 <= c < k && #[trigger] cell_set(rows, c) && drawn(grid, x1, y1, rows, c)[cell_target(
            x1,
            y1,
            c,
        )];
    lemma_drawn_wrapped(grid, x1, y1, x2, y2, rows, c);
    lemma_target_wrapped(x1, y1, x2, y2, c);
    assert(cell_set(rows, c) && drawn(grid, x2, y2, rows, c)[cell_target(x2, y2, c)]);
}

/// Coordinates wrap and never clip: a sprite drawn at `(x1, y1)` gives
/// the grid and the verdict of the same sprite drawn at any `(x2, y2)`
/// that wraps to the same place, such as `(x1 % 64, y1 % 32)`.
pub proof fn lemma_draw_wraps(
    grid: Seq<bool>,
    x1: int,
    y1: int,
    x2: int,
    y2: int,
    rows: Seq<u8>,
    k: int,
)
    requires
        x1 % 64 == x2 % 64,
        y1 % 32 == y2 % 32,
    ensures
        drawn(grid, x1, y1, rows, k) == drawn(grid, x2, y2, rows, k),
        erases(grid, x1, y1, rows, k) == erases(grid, x2, y2, rows, k),
{
    lemma_drawn_wrapped(grid, x1, y1, x2, y2, rows, k);
    if erases(grid, x1, y1, rows, k) {
        lemma_erases_wrapped(grid, x1, y1, x2, y2, rows, k);
    }
    if erases(grid, x2, y2, rows, k) {
        lemma_erases_wrapped(grid, x2, y2, x1, y1, rows, k);
    }
}

/// XOR cancels itself: drawing the same sprite twice at the same place
/// gives back the grid as it was.
pub proof fn lemma_draw_twice(grid: Seq<bool>, x: int, y: int, rows: Seq<u8>, k: int)
    ensures
        drawn(drawn(grid, x, y, rows, k), x, y, rows, k) == grid,
{
    assert(drawn(drawn(grid, x, y, rows, k), x, y, rows, k) =~= grid);
}

/// Two cells of a sprite of at most 32 rows never land on one pixel.
pub proof fn lemma_cells_apart(x: int, y: int, c1: int, c2: int)
    requires
        0 <= c1 < 256,
        0 <= c2 < 256,
        cell_target(x, y, c1) == cell_target(x, y, c2),
    ensures
        c1 == c2,
{
    let (i1, j1) = (c1 / 8, c1 % 8);
    let (i2, j2) = (c2 / 8, c2 % 8);
    lemma_cell_row_column(c1);
    lemma_cell_row_column(c2);
    let (a1, a2) = ((x + j1) % 64, (x + j2) % 64);
    let (b1, b2) = ((y + i1) % 32, (y + i2) % 32);
    lemma_mod_bound(x + j1, 64);
    lemma_mod_bound(x + j2, 64);
    lemma_mod_bound(y + i1, 32);
    lemma_mod_bound(y + i2, 32);
    let p = cell_target(x, y, c1);
    assert(p == b1 * 64 + a1);
    assert(p == b2 * 64 + a2);
    lemma_fundamental_div_mod_converse(p, 64, b1, a1);
    lemma_fundamental_div_mod_converse(p, 64, b2, a2);
    lemma_same_step(x, j1, j2, 64);
    lemma_same_step(y, i1, i2, 32);
}

/// For a sprite of at most 32 rows, the first `k` cells flip exactly
/// the pixels on which one of their set cells lands.
pub proof fn lemma_flips_cover(x: int, y: int, rows: Seq<u8>, k: int, p: int)
    requires
        rows.len() <= 32,
        k <= cell_count(rows),
    ensures
        flips(x, y, rows, k, p) <==> exists|c: int|
            0 <= c < k && #[trigger] cell_set(rows, c) && cell_target(x, y, c) == p,
    decreases k,
{
    if k > 0 {
        lemma_flips_cover(x, y, rows, k - 1, p);
        let last = cell_set(rows, k - 1) && cell_target(x, y, k - 1) == p;
        if flips(x, y, rows, k - 1, p) {
            let c = choose|c: int|
                0 <= c < k - 1 && #[trigger] cell_set(rows, c) && cell_target(x, y, c) == p;
            if last {
                lemma_cells_apart(x, y, c, k - 1);
            }
            assert(0 <= c < k && cell_set(rows, c) && cell_target(x, y, c) == p);
        } else if last {
            assert(0 <= k - 1 < k && cell_set(rows, k - 1) && cell_target(x, y, k - 1) == p);
        } else {
            if exists|c: int|
                0 <= c < k && #[trigger] cell_set(rows, c) && cell_target(x, y, c) == p {
                let c = choose|c: int|
                    0 <= c < k && #[trigger] cell_set(rows, c) && cell_target(x, y, c) == p;
                assert(c < k - 1);
            }
        }
    }
}

/// For a sprite of at most 32 rows, a draw erases exactly when one of
/// its set cells lands on a pixel that was on before the draw.
pub proof fn lemma_erases_lit(grid: Seq<bool>, x: int, y: int, rows: Seq<u8>, k: int)
    requires
        grid.len() == PIXEL_COUNT,
        rows.len() <= 32,
        k <= cell_count(rows),
    ensures
        erases(grid, x, y, rows, k) <==> exists|c: int|
            0 <= c < k && #[trigger] cell_set(rows, c) && grid[cell_target(x, y, c)],
{
    assert forall|c: int| 0 <= c < k implies drawn(grid, x, y, rows, c)[cell_target(x, y, c)]
        == grid[cell_target(x, y, c)] by {
        let p = cell_target(x, y, c);
        lemma_pixel_index_range(x + c % 8, y + c / 8);
        lemma_flips_cover(x, y, rows, c, p);
        if flips(x, y, rows, c, p) {
            let d = choose|d: int|
                0 <= d < c && #[trigger] cell_set(rows, d) && cell_target(x, y, d) == p;
            lemma_cells_apart(x, y, d, c);
        }
    }
    if erases(grid, x, y, rows, k) {
        let c = choose|c: int|
            0 <= c < k && #[trigger] cell_set(rows, c) && drawn(grid, x, y, rows, c)[cell_target(
                x,
                y,
                c,
            )];
        assert(cell_set(rows, c) && grid[cell_target(x, y, c)]);
    }
    if exists|c: int| 0 <= c < k && #[trigger] cell_set(rows, c) && grid[cell_target(x, y, c)] {
        let c = choose|c: int|
            0 <= c < k && #[trigger] cell_set(rows, c) && grid[cell_target(x, y, c)];
        assert(cell_set(rows, c) && drawn(grid, x, y, rows, c)[cell_target(x, y, c)]);
    }
}

/// Drawing a sprite of at most 32 rows a second time at the same place
/// erases exactly when the sprite has a set cell on a pixel that was
/// off before the first draw: the first draw turned it on.
pub proof fn lemma_second_draw_erases(grid: Seq<bool>, x: int, y: int, rows: Seq<u8>)
    requires
        grid.len() == PIXEL_COUNT,
        rows.len() <= 32,
    ensures
        erases(drawn(grid, x, y, rows, cell_count(rows)), x, y, rows, cell_count(rows))
            <==> exists|c: int|
            0 <= c < cell_count(rows) && #[trigger] cell_set(rows, c) && !grid[cell_target(
                x,
                y,
                c,
            )],
{
    let k = cell_count(rows);
    let first = drawn(grid, x, y, rows, k);
    lemma_erases_lit(first, x, y, rows, k);
    assert forall|c: int| 0 <= c < k && cell_set(rows, c) implies first[cell_target(x, y, c)]
        == !grid[cell_target(x, y, c)] by {
        let p = cell_target(x, y, c);
        lemma_pixel_index_range(x + c % 8, y + c / 8);
        lemma_flips_cover(x, y, rows, k, p);
        assert(0 <= c < k && cell_set(rows, c) && cell_target(x, y, c) == p);
    }
    if exists|c: int| 0 <= c < k && #[trigger] cell_set(rows, c) && first[cell_target(x, y, c)] {
        let c = choose|c: int|
            0 <= c < k && #[trigger] cell_set(rows, c) && first[cell_target(x, y, c)];
        assert(cell_set(rows, c) && !grid[cell_target(x, y, c)]);
    }
    if exists|c: int| 0 <= c < k && #[trigger] cell_set(rows, c) && !grid[cell_target(x, y, c)] {
        let c = choose|c: int|
            0 <= c < k && #[trigger] cell_set(rows, c) && !grid[cell_target(x, y, c)];
        assert(cell_set(rows, c) && first[cell_target(x, y, c)]);
    }
}

/// A row with all eight pixels set, drawn twice at the same place on
/// a screen where one of the eight pixels under it is off, leaves the
/// screen as it was and erases on the second draw. On a blank screen
/// that is every place.
pub proof fn lemma_full_row_twice(grid: Seq<bool>, x: int, y: int, column: int)
    requires
        grid.len() == PIXEL_COUNT,
        0 <= column < 8,
        !grid[pixel_index(x + column, y)],
    ensures
        drawn(drawn(grid, x, y, seq![0xFFu8], 8), x, y, seq![0xFFu8], 8) == grid,
        erases(drawn(grid, x, y, seq![0xFFu8], 8), x, y, seq![0xFFu8], 8),
{
    let rows = seq![0xFFu8];
    lemma_draw_twice(grid, x, y, rows, 8);
    lemma_second_draw_erases(grid, x, y, rows);
    let j = column as u8;
    assert(0xFFu8 & (0x80u8 >> j) != 0) by (bit_vector)
        requires
            j < 8,
    ;
    assert(cell_set(rows, column) && !grid[cell_target(x, y, column)]);
}

} // verus!
