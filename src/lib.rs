//! Integer core of a tile-scheduled path tracer: tile partition of the image,
//! the shared tile cursor, render settings, the bounce budget of a light path
//! and the frame buffer that finished pixels are written into.

pub mod cursor;
pub mod frame;
pub mod integrator;
pub mod settings;
pub mod tiles;

pub use cursor::TileCursor;
pub use frame::FrameBuffer;
pub use integrator::{next_step, PathStep, SurfaceEvent};
pub use settings::{RenderJob, RenderSettings, SettingsError};
pub use tiles::{Tile, TileGrid};
