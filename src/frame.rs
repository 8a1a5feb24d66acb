use crate::tiles::{Tile, TileGrid};
use vstd::prelude::*;

verus! {

/// The output image: `width × height` RGB pixels, held in an
/// `image::RgbImage`. Verus sees it only through `frame_pixels` and
/// `frame_size`.
#[verifier::external_body]
pub struct FrameBuffer {
    image: image::RgbImage,
}

/// The pixels that the frame's image holds, keyed by `(x, y)`.
pub uninterp spec fn frame_pixels(f: FrameBuffer) -> Map<(int, int), (u8, u8, u8)>;

/// The `(width, height)` that the frame's image was made with.
pub uninterp spec fn frame_size(f: FrameBuffer) -> (u32, u32);

/// The pixel positions of a `width × height` image.
pub open spec fn positions(width: int, height: int) -> Set<(int, int)> {
    Set::new(|p: (int, int)| 0 <= p.0 < width && 0 <= p.1 < height)
}

/// `pixels` with the pixels of `tile` taken from `colors`, row by row, and
/// only those of rows above `y`, or of row `y` left of `x`.
pub open spec fn painted_upto(
    pixels: Map<(int, int), (u8, u8, u8)>,
    tile: Tile,
    colors: Seq<(u8, u8, u8)>,
    y: int,
    x: int,
) -> Map<(int, int), (u8, u8, u8)> {
    Map::new(
        |p: (int, int)| pixels.dom().contains(p),
        |p: (int, int)|
            if tile.contains(p.0, p.1) && (p.1 < y || (p.1 == y && p.0 < x)) {
                colors[tile.offset_of(p.0, p.1)]
            } else {
                pixels[p]
            },
    )
}

/// `pixels` with every pixel of `tile` taken from `colors`, in row-major
/// order within the tile.
pub open spec fn painted(
    pixels: Map<(int, int), (u8, u8, u8)>,
    tile: Tile,
    colors: Seq<(u8, u8, u8)>,
) -> Map<(int, int), (u8, u8, u8)> {
    Map::new(
        |p: (int, int)| pixels.dom().contains(p),
        |p: (int, int)|
            if tile.contains(p.0, p.1) {
                colors[tile.offset_of(p.0, p.1)]
            } else {
                pixels[p]
            },
    )
}

/// The channels of pixel `(x, y)` in the row-major bytes of an image of the
/// given width.
pub open spec fn raw_pixel(bytes: Seq<u8>, width: int, x: int, y: int) -> (u8, u8, u8) {
    let i = 3 * (y * width + x);
    (bytes[i], bytes[i + 1], bytes[i + 2])
}

/// Two distinct tiles of a grid can be written in either order with the same
/// result: the final image does not depend on which worker finishes first.
pub proof fn lemma_tile_writes_commute(
    grid: TileGrid,
    i: int,
    j: int,
    pixels: Map<(int, int), (u8, u8, u8)>,
    ci: Seq<(u8, u8, u8)>,
    cj: Seq<(u8, u8, u8)>,
)
    requires
        grid.wf(),
        0 <= i < grid.total(),
        0 <= j < grid.total(),
        i != j,
    ensures
        painted(painted(pixels, grid.tile_spec(i), ci), grid.tile_spec(j), cj) == painted(
            painted(pixels, grid.tile_spec(j), cj),
            grid.tile_spec(i),
            ci,
        ),
{
    grid.lemma_tiles_partition_image();
    assert(painted(painted(pixels, grid.tile_spec(i), ci), grid.tile_spec(j), cj) =~= painted(
        painted(pixels, grid.tile_spec(j), cj),
        grid.tile_spec(i),
        ci,
    ));
}

/// `pixels` after the tiles `0 .. n` of `grid` were written in raster order,
/// tile `k` with `colors[k]`.
pub open spec fn paint_tiles(
    pixels: Map<(int, int), (u8, u8, u8)>,
    grid: TileGrid,
    colors: Seq<Seq<(u8, u8, u8)>>,
    n: int,
) -> Map<(int, int), (u8, u8, u8)>
    decreases n,
{
    if n <= 0 {
        pixels
    } else {
        painted(paint_tiles(pixels, grid, colors, n - 1), grid.tile_spec(n - 1), colors[n - 1])
    }
}

/// Once the tiles `0 .. n` are written, a pixel of the image holds the color
/// that its own tile gave it if that tile is among them, and its old color
/// otherwise; positions outside the image keep their color. With
/// `n == grid.total()` every pixel was written by exactly one tile.
pub proof fn lemma_written_tiles(
    pixels: Map<(int, int), (u8, u8, u8)>,
    grid: TileGrid,
    colors: Seq<Seq<(u8, u8, u8)>>,
    n: int,
)
    requires
        grid.wf(),
        0 <= n <= grid.total(),
    ensures
        paint_tiles(pixels, grid, colors, n).dom() == pixels.dom(),
        forall|x: int, y: int|
            pixels.dom().contains((x, y)) ==> #[trigger] paint_tiles(pixels, grid, colors, n)[(
                x,
                y,
            )] == if 0 <= x < grid.width && 0 <= y < grid.height && grid.tile_index_of(x, y) < n {
                colors[grid.tile_index_of(x, y)][grid.tile_spec(grid.tile_index_of(x, y)).offset_of(
                    x,
                    y,
                )]
            } else {
                pixels[(x, y)]
            },
    decreases n,
{
    if n > 0 {
        lemma_written_tiles(pixels, grid, colors, n - 1);
        grid.lemma_tiles_partition_image();
        let before = paint_tiles(pixels, grid, colors, n - 1);
        assert forall|x: int, y: int| pixels.dom().contains((x, y)) implies #[trigger] paint_tiles(
            pixels,
            grid,
            colors,
            n,
        )[(x, y)] == if 0 <= x < grid.width && 0 <= y < grid.height && grid.tile_index_of(x, y)
            < n {
            colors[grid.tile_index_of(x, y)][grid.tile_spec(grid.tile_index_of(x, y)).offset_of(
                x,
                y,
            )]
        } else {
            pixels[(x, y)]
        } by {
            assert(before[(x, y)] == paint_tiles(pixels, grid, colors, n - 1)[(x, y)]);
            if grid.tile_spec(n - 1).contains(x, y) {
                assert(0 <= x < grid.width && 0 <= y < grid.height);
            }
        }
        assert(paint_tiles(pixels, grid, colors, n).dom() =~= pixels.dom());
    }
}

/// Relies on `image::ImageBuffer::new`: a `width × height` image with every
/// channel zero. It panics when `3 × width`, or that times `height`,
/// overflows `usize`.
#[verifier::external_body]
fn new_frame(width: u32, height: u32) -> (r: FrameBuffer)
    requires
        3 * width <= usize::MAX,
        3 * width * height <= usize::MAX,
    ensures
        frame_size(r) == (width, height),
        frame_pixels(r) == Map::new(
            |p: (int, int)| positions(width as int, height as int).contains(p),
            |p: (int, int)| (0u8, 0u8, 0u8),
        ),
{
    FrameBuffer { image: image::RgbImage::new(width, height) }
}

/// Relies on `image::ImageBuffer::put_pixel`: the pixel at `(x, y)` becomes
/// `color`. It panics outside the image.
#[verifier::external_body]
fn put_pixel(f: &mut FrameBuffer, x: u32, y: u32, color: (u8, u8, u8))
    requires
        x < frame_size(*old(f)).0,
        y < frame_size(*old(f)).1,
    ensures
        frame_size(*final(f)) == frame_size(*old(f)),
        frame_pixels(*final(f)) == frame_pixels(*old(f)).insert((x as int, y as int), color),
{
    f.image.put_pixel(x, y, image::Rgb([color.0, color.1, color.2]))
}

/// Relies on `image::ImageBuffer::get_pixel`: the pixel at `(x, y)`. It
/// panics outside the image.
#[verifier::external_body]
fn get_pixel(f: &FrameBuffer, x: u32, y: u32) -> (r: (u8, u8, u8))
    requires
        x < frame_size(*f).0,
        y < frame_size(*f).1,
    ensures
        r == frame_pixels(*f)[(x as int, y as int)],
{
    let p = f.image.get_pixel(x, y);
    (p.0[0], p.0[1], p.0[2])
}

/// Relies on `image::ImageBuffer::into_raw`: the image's bytes, row after
/// row, three channels per pixel. The frame's image is only ever made by
/// `ImageBuffer::new`, which allocates exactly `3 × width × height` bytes.
#[verifier::external_body]
fn take_raw(f: FrameBuffer) -> (r: Vec<u8>)
    ensures
        r@.len() == 3 * frame_size(f).0 * frame_size(f).1,
        forall|x: int, y: int|
            0 <= x < frame_size(f).0 && 0 <= y < frame_size(f).1 ==> raw_pixel(
                r@,
                frame_size(f).0 as int,
                x,
                y,
            ) == #[trigger] frame_pixels(f)[(x, y)],
{
    f.image.into_raw()
}

/// Relies on `image::ImageBuffer::width`: the width the image was made with.
#[verifier::external_body]
fn image_width(f: &FrameBuffer) -> (r: u32)
    ensures
        r == frame_size(*f).0,
{
    f.image.width()
}

/// Relies on `image::ImageBuffer::height`: the height the image was made with.
#[verifier::external_body]
fn image_height(f: &FrameBuffer) -> (r: u32)
    ensures
        r == frame_size(*f).1,
{
    f.image.height()
}

impl FrameBuffer {
    pub open spec fn size(self) -> (u32, u32) {
        frame_size(self)
    }

    pub open spec fn pixels(self) -> Map<(int, int), (u8, u8, u8)> {
        frame_pixels(self)
    }

    /// One pixel for each position of the image, and none elsewhere.
    pub open spec fn wf(self) -> bool {
        self.pixels().dom() == positions(self.size().0 as int, self.size().1 as int)
    }

    /// A black `width × height` frame; `None` when its `3 × width × height`
    /// bytes, or the `3 × width` bytes of one row, do not fit in `usize`.
    pub fn blank(width: u32, height: u32) -> (r: Option<FrameBuffer>)
        ensures
            r is None <==> (3 * width > usize::MAX || 3 * width * height > usize::MAX),
            r matches Some(f) ==> f.wf() && f.size() == (width, height) && forall|x: int, y: int|
                0 <= x < width && 0 <= y < height ==> #[trigger] f.pixels()[(x, y)] == (
                0u8,
                0u8,
                0u8,
            ),
    {
        let fits = match (3usize).checked_mul(width as usize) {
            Some(row) => row.checked_mul(height as usize).is_some(),
            None => false,
        };
        assert(fits <==> (3 * width <= usize::MAX && 3 * width * height <= usize::MAX)) by (
        nonlinear_arith)
            requires
                fits <==> (3 * width <= usize::MAX && (3 * width) * height <= usize::MAX),
        ;
        if fits {
            let f = new_frame(width, height);
            assert(f.pixels().dom() =~= positions(width as int, height as int));
            Some(f)
        } else {
            None
        }
    }

    /// The frame's bytes, row after row from the top, three channels
    /// (red, green, blue) per pixel.
    pub fn into_raw(self) -> (r: Vec<u8>)
        ensures
            r@.len() == 3 * self.size().0 * self.size().1,
            forall|x: int, y: int|
                0 <= x < self.size().0 && 0 <= y < self.size().1 ==> raw_pixel(
                    r@,
                    self.size().0 as int,
                    x,
                    y,
                ) == #[trigger] self.pixels()[(x, y)],
    {
        take_raw(self)
    }

    pub fn width(&self) -> (r: u32)
        ensures
            r == self.size().0,
    {
        image_width(self)
    }

    pub fn height(&self) -> (r: u32)
        ensures
            r == self.size().1,
    {
        image_height(self)
    }

    /// The color at `(x, y)`.
    pub fn pixel(&self, x: u32, y: u32) -> (r: (u8, u8, u8))
        requires
            x < self.size().0,
            y < self.size().1,
        ensures
            r == self.pixels()[(x as int, y as int)],
    {
        get_pixel(self, x, y)
    }
    /// Writes `colors` into the pixels of `tile`, in row-major order within
    /// the tile; every other pixel keeps its color.
    pub fn write_tile(&mut self, tile: Tile, colors: &Vec<(u8, u8, u8)>)
        requires
            old(self).wf(),
            tile.x0 <= tile.x1 <= old(self).size().0,
            tile.y0 <= tile.y1 <= old(self).size().1,
            colors.len() == tile.tile_width() * tile.tile_height(),
        ensures
            final(self).wf(),
            final(self).size() == old(self).size(),
            final(self).pixels() == painted(old(self).pixels(), tile, colors@),
    {
        let ghost start = self.pixels();
        let tw = tile.x1 - tile.x0;
        let mut k: usize = 0;
        let mut y = tile.y0;
        assert(painted_upto(start, tile, colors@, tile.y0 as int, tile.x0 as int) =~= start);
        while y < tile.y1
            invariant
                tile.x0 <= tile.x1 <= self.size().0,
                tile.y0 <= y <= tile.y1 <= self.size().1,
                self.size() == old(self).size(),
                start == old(self).pixels(),
                start.dom() == positions(self.size().0 as int, self.size().1 as int),
                tw == tile.tile_width(),
                colors.len() == tile.tile_width() * tile.tile_height(),
                k == (y - tile.y0) * tw,
                self.pixels() == painted_upto(start, tile, colors@, y as int, tile.x0 as int),
            decreases tile.y1 - y,
        {
            let mut x = tile.x0;
            while x < tile.x1
                invariant
                    tile.x0 <= x <= tile.x1 <= self.size().0,
                    tile.y0 <= y < tile.y1 <= self.size().1,
                    self.size() == old(self).size(),
                    start.dom() == positions(self.size().0 as int, self.size().1 as int),
                    tw == tile.tile_width(),
                    colors.len() == tile.tile_width() * tile.tile_height(),
                    k == (y - tile.y0) * tw + (x - tile.x0),
                    self.pixels() == painted_upto(start, tile, colors@, y as int, x as int),
                decreases tile.x1 - x,
            {
                assert(k < colors.len()) by (nonlinear_arith)
                    requires
                        k == (y - tile.y0) * tw + (x - tile.x0),
                        x < tile.x1,
                        tw == tile.x1 - tile.x0,
                        y < tile.y1,
                        colors.len() == tw * (tile.y1 - tile.y0),
                ;
                put_pixel(self, x, y, colors[k]);
                assert(self.pixels() =~= painted_upto(start, tile, colors@, y as int, x + 1));
                k = k + 1;
                x = x + 1;
            }
            assert(k == (y + 1 - tile.y0) * tw) by (nonlinear_arith)
                requires
                    k == (y - tile.y0) * tw + (x - tile.x0),
                    x == tile.x1,
                    tw == tile.x1 - tile.x0,
            ;
            assert(painted_upto(start, tile, colors@, y as int, tile.x1 as int) =~= painted_upto(
                start,
                tile,
                colors@,
                y + 1,
                tile.x0 as int,
            ));
            y = y + 1;
        }
        assert(self.pixels() =~= painted(start, tile, colors@));
    }
}

} // verus!
