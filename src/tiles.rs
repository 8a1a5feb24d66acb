use vstd::arithmetic::div_mod::{
    lemma_fundamental_div_mod, lemma_fundamental_div_mod_converse_div,
    lemma_fundamental_div_mod_converse_mod,
};
use vstd::prelude::*;

verus! {

/// Number of tiles of side `size` needed to cover `len` pixels.
pub open spec fn tiles_across(len: int, size: int) -> int {
    if len % size == 0 {
        len / size
    } else {
        len / size + 1
    }
}

/// `ceil(len / size)`, computed without overflow.
fn count_tiles(len: u32, size: u32) -> (r: u32)
    requires
        size > 0,
    ensures
        r == tiles_across(len as int, size as int),
{
    if len % size == 0 {
        len / size
    } else {
        assert(len / size < u32::MAX) by (nonlinear_arith)
            requires
                size > 0,
                len <= u32::MAX,
                len % size != 0,
        {
            if size == 1 {
            } else {
                assert(len / size <= len / 2);
            }
        }
        len / size + 1
    }
}

/// A tile that starts inside the grid starts inside the image.
proof fn lemma_tile_start_inside(len: int, size: int, c: int)
    requires
        size > 0,
        len >= 0,
        0 <= c < tiles_across(len, size),
    ensures
        0 <= c * size < len,
{
    assert(0 <= c * size) by (nonlinear_arith)
        requires
            c >= 0,
            size > 0,
    ;
    lemma_fundamental_div_mod(len, size);
    assert(c * size < len) by (nonlinear_arith)
        requires
            size > 0,
            len >= 0,
            c >= 0,
            len % size == 0 ==> c < len / size,
            len % size != 0 ==> c <= len / size,
            len == size * (len / size) + len % size,
            0 <= len % size < size,
    ;
}

/// A pixel lies in the tile column `x / size` and in no other.
proof fn lemma_column_of(x: int, c: int, size: int)
    requires
        size > 0,
        c * size <= x < (c + 1) * size,
    ensures
        x / size == c,
{
    lemma_fundamental_div_mod(x, size);
    assert(x / size == c) by (nonlinear_arith)
        requires
            size > 0,
            c * size <= x,
            x < (c + 1) * size,
            x == size * (x / size) + x % size,
            0 <= x % size < size,
    ;
}

/// A pixel at `x` lies in tile column `x / size`, which the grid holds.
proof fn lemma_pixel_column(x: int, len: int, size: int)
    requires
        size > 0,
        0 <= x < len,
    ensures
        0 <= x / size < tiles_across(len, size),
        (x / size) * size <= x < (x / size + 1) * size,
{
    lemma_fundamental_div_mod(x, size);
    lemma_fundamental_div_mod(len, size);
    let c = x / size;
    assert(c * size <= x < (c + 1) * size) by (nonlinear_arith)
        requires
            x == size * c + x % size,
            0 <= x % size < size,
    ;
    assert(0 <= c) by (nonlinear_arith)
        requires
            size > 0,
            x >= 0,
            c == x / size,
    ;
    assert(c <= len / size) by (nonlinear_arith)
        requires
            size > 0,
            x < len,
            c == x / size,
    {
        vstd::arithmetic::div_mod::lemma_div_is_ordered(x, len, size);
    }
    if len % size == 0 {
        assert(c < len / size) by (nonlinear_arith)
            requires
                size > 0,
                c * size <= x,
                x < len,
                len == size * (len / size),
        ;
    }
}

/// A rectangle of pixels `[x0, x1) × [y0, y1)`.
#[derive(Clone, Copy, Debug, PartialEq, Eq)]
pub struct Tile {
    pub x0: u32,
    pub y0: u32,
    pub x1: u32,
    pub y1: u32,
}

impl Tile {
    pub open spec fn contains(self, x: int, y: int) -> bool {
        self.x0 <= x < self.x1 && self.y0 <= y < self.y1
    }

    pub open spec fn tile_width(self) -> int {
        self.x1 - self.x0
    }

    pub open spec fn tile_height(self) -> int {
        self.y1 - self.y0
    }

    /// Position of pixel `(x, y)` in the row-major order of the tile.
    pub open spec fn offset_of(self, x: int, y: int) -> int {
        (y - self.y0) * self.tile_width() + (x - self.x0)
    }

    /// Number of pixels in the tile.
    pub fn pixel_count(&self) -> (r: u64)
        requires
            self.x0 <= self.x1,
            self.y0 <= self.y1,
        ensures
            r == self.tile_width() * self.tile_height(),
    {
        let w = (self.x1 - self.x0) as u64;
        let h = (self.y1 - self.y0) as u64;
        assert(w * h <= u32::MAX as int * u32::MAX as int) by (nonlinear_arith)
            requires
                w <= u32::MAX,
                h <= u32::MAX,
        ;
        w * h
    }
}

/// The image cut into square tiles of side `tile_size`, the last column and
/// row clipped to the image bounds. Tiles are numbered in raster order.
#[derive(Clone, Copy, Debug)]
pub struct TileGrid {
    pub width: u32,
    pub height: u32,
    pub tile_size: u32,
    pub columns: u32,
    pub rows: u32,
}

impl TileGrid {
    pub open spec fn wf(self) -> bool {
        &&& self.tile_size > 0
        &&& self.columns == tiles_across(self.width as int, self.tile_size as int)
        &&& self.rows == tiles_across(self.height as int, self.tile_size as int)
    }

    pub open spec fn total(self) -> int {
        self.columns * self.rows
    }

    /// The tile with raster index `i`.
    pub open spec fn tile_spec(self, i: int) -> Tile {
        let cx = i % self.columns as int;
        let cy = i / self.columns as int;
        let s = self.tile_size as int;
        Tile {
            x0: (cx * s) as u32,
            y0: (cy * s) as u32,
            x1: if (cx + 1) * s < self.width { ((cx + 1) * s) as u32 } else { self.width },
            y1: if (cy + 1) * s < self.height { ((cy + 1) * s) as u32 } else { self.height },
        }
    }

    /// Raster index of the tile that holds pixel `(x, y)`.
    pub open spec fn tile_index_of(self, x: int, y: int) -> int {
        (y / self.tile_size as int) * self.columns + x / self.tile_size as int
    }

    /// The grid for a `width × height` image; `None` when `tile_size` is zero.
    pub fn new(width: u32, height: u32, tile_size: u32) -> (r: Option<TileGrid>)
        ensures
            tile_size == 0 <==> r is None,
            r matches Some(g) ==> g.wf() && g.width == width && g.height == height
                && g.tile_size == tile_size,
    {
        if tile_size == 0 {
            return None;
        }
        let columns = count_tiles(width, tile_size);
        let rows = count_tiles(height, tile_size);
        Some(TileGrid { width, height, tile_size, columns, rows })
    }

    /// Row of the image plane that frame row `y` samples: frame rows run
    /// top-down, image-plane rows bottom-up.
    pub fn plane_row(&self, y: u32) -> (r: u32)
        requires
            y < self.height,
        ensures
            r == self.height - 1 - y,
    {
        self.height - 1 - y
    }

    /// `columns × rows`: the number of tiles.
    pub fn total_tiles(&self) -> (r: u64)
        ensures
            r == self.total(),
    {
        let c = self.columns as u64;
        let h = self.rows as u64;
        assert(c * h <= u32::MAX as int * u32::MAX as int) by (nonlinear_arith)
            requires
                c <= u32::MAX,
                h <= u32::MAX,
        ;
        c * h
    }

    /// The tile with raster index `index`.
    pub fn tile(&self, index: u64) -> (r: Tile)
        requires
            self.wf(),
            index < self.total(),
        ensures
            r == self.tile_spec(index as int),
            r.x0 < r.x1 <= self.width,
            r.y0 < r.y1 <= self.height,
    {
        let s = self.tile_size;
        proof {
            self.lemma_column_row_in_grid(index as int);
            lemma_tile_start_inside(
                self.width as int,
                s as int,
                index as int % (self.columns as int),
            );
            lemma_tile_start_inside(
                self.height as int,
                s as int,
                index as int / (self.columns as int),
            );
        }
        let cx = (index % self.columns as u64) as u32;
        let cy = (index / self.columns as u64) as u32;
        let x0 = cx * s;
        let y0 = cy * s;
        let x1 = if self.width - x0 > s { x0 + s } else { self.width };
        let y1 = if self.height - y0 > s { y0 + s } else { self.height };
        assert((cx + 1) * s == cx * s + s && (cy + 1) * s == cy * s + s) by (nonlinear_arith);
        Tile { x0, y0, x1, y1 }
    }

    proof fn lemma_column_row_in_grid(self, i: int)
        requires
            self.wf(),
            0 <= i < self.total(),
        ensures
            self.columns > 0,
            0 <= i % (self.columns as int) < self.columns,
            0 <= i / (self.columns as int) < self.rows,
    {
        let c = self.columns as int;
        let r = self.rows as int;
        assert(c > 0) by (nonlinear_arith)
            requires
                0 <= i < c * r,
                r >= 0,
        ;
        lemma_fundamental_div_mod(i, c);
        assert(0 <= i / c < r) by (nonlinear_arith)
            requires
                c > 0,
                0 <= i < c * r,
                i == c * (i / c) + i % c,
                0 <= i % c < c,
        ;
    }

    /// The pixel `(x, y)` of the image lies in the tile `tile_index_of(x, y)`,
    /// and in no other tile of the grid.
    proof fn lemma_pixel_tile(self, x: int, y: int)
        requires
            self.wf(),
            0 <= x < self.width,
            0 <= y < self.height,
        ensures
            0 <= self.tile_index_of(x, y) < self.total(),
            self.tile_spec(self.tile_index_of(x, y)).contains(x, y),
            forall|i: int|
                0 <= i < self.total() && #[trigger] self.tile_spec(i).contains(x, y) ==> i
                    == self.tile_index_of(x, y),
    {
        let s = self.tile_size as int;
        let c = self.columns as int;
        let cx = x / s;
        let cy = y / s;
        lemma_fundamental_div_mod(x, s);
        lemma_fundamental_div_mod(y, s);
        lemma_pixel_column(x, self.width as int, s);
        lemma_pixel_column(y, self.height as int, s);
        let k = cy * c + cx;
        assert(0 <= k < self.total()) by (nonlinear_arith)
            requires
                0 <= cx < c,
                0 <= cy < self.rows as int,
                k == cy * c + cx,
                self.total() == c * self.rows as int,
        ;
        assert(k % c == cx && k / c == cy) by {
            lemma_fundamental_div_mod_converse_mod(k, c, cy, cx);
            lemma_fundamental_div_mod_converse_div(k, c, cy, cx);
        }
        lemma_tile_start_inside(self.width as int, s, cx);
        lemma_tile_start_inside(self.height as int, s, cy);
        assert forall|i: int|
            0 <= i < self.total() && #[trigger] self.tile_spec(i).contains(x, y) implies i == k by {
            self.lemma_column_row_in_grid(i);
            let ix = i % c;
            let iy = i / c;
            lemma_tile_start_inside(self.width as int, s, ix);
            lemma_tile_start_inside(self.height as int, s, iy);
            lemma_column_of(x, ix, s);
            lemma_column_of(y, iy, s);
            lemma_fundamental_div_mod(i, c);
            assert(i == iy * c + ix) by (nonlinear_arith)
                requires
                    i == c * iy + ix,
            ;
        }
    }

    /// The tiles partition the image: every tile lies inside
    /// `[0, width) × [0, height)`, every pixel of the image lies in the tile
    /// `tile_index_of(x, y)`,
    /// and no pixel lies in two tiles.
    pub proof fn lemma_tiles_partition_image(self)
        requires
            self.wf(),
        ensures
            forall|i: int, x: int, y: int|
                0 <= i < self.total() && #[trigger] self.tile_spec(i).contains(x, y) ==> 0 <= x
                    < self.width && 0 <= y < self.height,
            forall|x: int, y: int|
                0 <= x < self.width && 0 <= y < self.height ==> 0 <= #[trigger] self.tile_index_of(
                    x,
                    y,
                ) < self.total() && self.tile_spec(self.tile_index_of(x, y)).contains(x, y),
            forall|i: int, j: int, x: int, y: int|
                0 <= i < self.total() && 0 <= j < self.total() && #[trigger] self.tile_spec(
                    i,
                ).contains(x, y) && #[trigger] self.tile_spec(j).contains(x, y) ==> i == j,
    {
        let s = self.tile_size as int;
        let c = self.columns as int;
        assert forall|i: int, x: int, y: int|
            0 <= i < self.total() && #[trigger] self.tile_spec(i).contains(x, y) implies 0 <= x
                < self.width && 0 <= y < self.height by {
            self.lemma_column_row_in_grid(i);
            lemma_tile_start_inside(self.width as int, s, i % c);
            lemma_tile_start_inside(self.height as int, s, i / c);
        }
        assert forall|x: int, y: int|
            0 <= x < self.width && 0 <= y < self.height implies 0 <= #[trigger] self.tile_index_of(
                x,
                y,
            ) < self.total() && self.tile_spec(self.tile_index_of(x, y)).contains(x, y) by {
            self.lemma_pixel_tile(x, y);
        }
        assert forall|i: int, j: int, x: int, y: int|
            0 <= i < self.total() && 0 <= j < self.total() && #[trigger] self.tile_spec(
                i,
            ).contains(x, y) && #[trigger] self.tile_spec(j).contains(x, y) implies i == j by {
            self.lemma_column_row_in_grid(i);
            lemma_tile_start_inside(self.width as int, s, i % c);
            lemma_tile_start_inside(self.height as int, s, i / c);
            self.lemma_pixel_tile(x, y);
        }
    }
}

} // verus!
