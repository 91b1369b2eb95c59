//! Shared shorthand types and the defaults of a fresh configuration.

use vstd::prelude::*;

verus! {

/// Column and row of one picture element.
pub type Pixel = (u64, u64);

/// Red, green and blue channel of one picture element.
pub type RGB = (u8, u8, u8);

/// A rectangle of picture elements `(x1, y1, x2, y2)`: columns `x1..x2`, rows `y1..y2`.
pub type Sector = (u64, u64, u64, u64);

pub const DEFAULT_WIDTH: u64 = 640;

pub const DEFAULT_HEIGHT: u64 = 480;

pub const DEFAULT_AA_SAMPLES: u64 = 1;

pub const DEFAULT_DEPTH_LIMIT: u64 = 50;

pub const DEFAULT_THREADS: u64 = 1;

} // verus!
