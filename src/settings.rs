use crate::cursor::TileCursor;
use crate::frame::FrameBuffer;
use crate::tiles::TileGrid;
use vstd::prelude::*;

verus! {

/// Why a render cannot start.
#[derive(Clone, Copy, Debug, PartialEq, Eq)]
pub enum SettingsError {
    /// `samples_per_pixel` is zero: there is nothing to average.
    NoSamples,
    /// `max_ray_bounces` is zero: no ray could be traced.
    NoBounces,
    /// `render_tile_size` is zero.
    ZeroTileSize,
    /// `render_threads` is zero: no worker would render.
    NoThreads,
    /// The `3 × width × height` bytes of the image, or the `3 × width`
    /// bytes of one row, do not fit in `usize`.
    ImageTooLarge,
}

/// The scalar knobs of a render.
#[derive(Clone, Copy, Debug)]
pub struct RenderSettings {
    pub samples_per_pixel: u32,
    pub max_ray_bounces: u32,
    pub render_threads: usize,
    pub render_tile_size: u32,
    pub width: u32,
    pub height: u32,
}

/// What a render works on: the tile grid, the cursor over its tiles and the
/// blank frame the workers fill.
pub struct RenderJob {
    pub grid: TileGrid,
    pub cursor: TileCursor,
    pub frame: FrameBuffer,
}

impl RenderSettings {
    /// The error `validate` reports, if any: the first knob found at zero, in
    /// field order, then an image too large to hold.
    pub open spec fn error_spec(self) -> Option<SettingsError> {
        if self.samples_per_pixel == 0 {
            Some(SettingsError::NoSamples)
        } else if self.max_ray_bounces == 0 {
            Some(SettingsError::NoBounces)
        } else if self.render_threads == 0 {
            Some(SettingsError::NoThreads)
        } else if self.render_tile_size == 0 {
            Some(SettingsError::ZeroTileSize)
        } else if 3 * self.width > usize::MAX || 3 * self.width * self.height > usize::MAX {
            Some(SettingsError::ImageTooLarge)
        } else {
            None
        }
    }

    /// Settings of an empty `0 × 0` viewport: 250 samples per pixel, at most
    /// 32 bounces, tiles of 128 pixels, and one worker per hardware thread
    /// (`parallelism`), or 8 when that is unknown.
    pub fn new(parallelism: Option<usize>) -> (r: RenderSettings)
        ensures
            r.samples_per_pixel == 250,
            r.max_ray_bounces == 32,
            r.render_tile_size == 128,
            r.render_threads == match parallelism {
                Some(n) => n,
                None => 8,
            },
            r.width == 0,
            r.height == 0,
    {
        let render_threads = match parallelism {
            Some(n) => n,
            None => 8,
        };
        RenderSettings {
            samples_per_pixel: 250,
            max_ray_bounces: 32,
            render_threads,
            render_tile_size: 128,
            width: 0,
            height: 0,
        }
    }

    /// Sets the image dimensions; the other knobs stay.
    pub fn viewport_resize(&mut self, width: u32, height: u32)
        ensures
            *final(self) == (RenderSettings { width, height, ..*old(self) }),
    {
        self.width = width;
        self.height = height;
    }

    /// `Ok` when a render with these settings can start, else the first
    /// problem found.
    pub fn validate(&self) -> (r: Result<(), SettingsError>)
        ensures
            r is Ok <==> self.error_spec() is None,
            r matches Err(e) ==> self.error_spec() == Some(e),
    {
        if self.samples_per_pixel == 0 {
            return Err(SettingsError::NoSamples);
        }
        if self.max_ray_bounces == 0 {
            return Err(SettingsError::NoBounces);
        }
        if self.render_threads == 0 {
            return Err(SettingsError::NoThreads);
        }
        if self.render_tile_size == 0 {
            return Err(SettingsError::ZeroTileSize);
        }
        match FrameBuffer::blank(self.width, self.height) {
            Some(_) => Ok(()),
            None => Err(SettingsError::ImageTooLarge),
        }
    }

    /// Everything a render needs: the tile grid of the image, a cursor at
    /// its first tile, and a black frame of the image's size.
    pub fn prepare(&self) -> (r: Result<RenderJob, SettingsError>)
        ensures
            r is Ok <==> self.error_spec() is None,
            r matches Err(e) ==> self.error_spec() == Some(e),
            r matches Ok(job) ==> {
                &&& job.grid.wf()
                &&& job.grid.width == self.width
                &&& job.grid.height == self.height
                &&& job.grid.tile_size == self.render_tile_size
                &&& job.cursor.wf()
                &&& job.cursor.next_spec() == 0
                &&& job.cursor.total_spec() == job.grid.total()
                &&& job.frame.wf()
                &&& job.frame.size() == (self.width, self.height)
                &&& forall|x: int, y: int|
                    0 <= x < self.width && 0 <= y < self.height ==> #[trigger] job.frame.pixels()[(
                        x,
                        y,
                    )] == (0u8, 0u8, 0u8)
            },
    {
        if let Err(e) = self.validate() {
            return Err(e);
        }
        let grid = match TileGrid::new(self.width, self.height, self.render_tile_size) {
            Some(g) => g,
            None => return Err(SettingsError::ZeroTileSize),
        };
        let frame = match FrameBuffer::blank(self.width, self.height) {
            Some(f) => f,
            None => return Err(SettingsError::ImageTooLarge),
        };
        let cursor = TileCursor::new(grid.total_tiles());
        Ok(RenderJob { grid, cursor, frame })
    }
}

} // verus!
