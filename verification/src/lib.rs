//! The integer core of a path tracer: render settings, the raster buffer and
//! its portable-pixmap encodings, the per-pixel render loop, the bounce budget
//! of the integrator, and the tiling of the picture among workers.

pub mod aliases;
pub mod decimal;
pub mod integrator;
pub mod ppm;
pub mod render;
pub mod settings;
pub mod workers;

pub use crate::aliases::{
    Pixel, Sector, DEFAULT_AA_SAMPLES, DEFAULT_DEPTH_LIMIT, DEFAULT_HEIGHT, DEFAULT_THREADS,
    DEFAULT_WIDTH, RGB,
};
pub use crate::ppm::PPMBuffer;
pub use crate::settings::Settings;
pub use crate::render::render;
pub use crate::workers::{get_pixel, subdivide, thread_count, Msg, ThreadData};
pub use crate::integrator::{bounce, Bounce};
