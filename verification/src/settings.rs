//! What a render is asked to produce: the picture's size, how many samples
//! each pixel gets, how many bounces a ray may take, and where the picture goes.

use vstd::prelude::*;
use vstd::string::StringExecFns;
use crate::aliases::{
    DEFAULT_AA_SAMPLES, DEFAULT_DEPTH_LIMIT, DEFAULT_HEIGHT, DEFAULT_THREADS, DEFAULT_WIDTH,
};

verus! {

/// The configuration of one render. It is built once, by `new` and the
/// chained setters, and only read afterwards.
pub struct Settings {
    pub width: u64,
    pub height: u64,
    pub depth_limit: u64,
    pub aa_samples: u64,
    pub fname: String,
    pub threads: u64,
}

impl Settings {
    /// A picture has at least one column and one row.
    pub open spec fn valid(&self) -> bool {
        self.width > 0 && self.height > 0
    }

    /// How many samples are averaged for one pixel: the configured number,
    /// and a single one where that number is zero.
    pub open spec fn spec_sample_count(&self) -> nat {
        if self.aa_samples == 0 {
            1
        } else {
            self.aa_samples as nat
        }
    }

    /// The defaults, writing to the file named `f`.
    pub fn new(f: &str) -> (s: Settings)
        ensures
            s.width == DEFAULT_WIDTH,
            s.height == DEFAULT_HEIGHT,
            s.depth_limit == DEFAULT_DEPTH_LIMIT,
            s.aa_samples == DEFAULT_AA_SAMPLES,
            s.threads == DEFAULT_THREADS,
            s.fname@ == f@,
            s.valid(),
    {
        Settings {
            width: DEFAULT_WIDTH,
            height: DEFAULT_HEIGHT,
            depth_limit: DEFAULT_DEPTH_LIMIT,
            aa_samples: DEFAULT_AA_SAMPLES,
            fname: String::from_str(f),
            threads: DEFAULT_THREADS,
        }
    }

    /// The same settings with the picture `w` pixels wide.
    pub fn width(self, w: u64) -> (s: Settings)
        ensures
            s == (Settings { width: w, ..self }),
    {
        Settings { width: w, ..self }
    }

    /// The same settings with the picture `h` pixels high.
    pub fn height(self, h: u64) -> (s: Settings)
        ensures
            s == (Settings { height: h, ..self }),
    {
        Settings { height: h, ..self }
    }

    /// The same settings with `aa` samples for each pixel.
    pub fn aa_samples(self, aa: u64) -> (s: Settings)
        ensures
            s == (Settings { aa_samples: aa, ..self }),
    {
        Settings { aa_samples: aa, ..self }
    }

    /// The same settings with at most `dl` bounces for each ray.
    pub fn depth_limit(self, dl: u64) -> (s: Settings)
        ensures
            s == (Settings { depth_limit: dl, ..self }),
    {
        Settings { depth_limit: dl, ..self }
    }

    /// The same settings with `t` workers.
    pub fn threads(self, t: u64) -> (s: Settings)
        ensures
            s == (Settings { threads: t, ..self }),
    {
        Settings { threads: t, ..self }
    }

    /// Whether the picture has at least one column and one row.
    pub fn is_valid(&self) -> (ok: bool)
        ensures
            ok == self.valid(),
    {
        self.width > 0 && self.height > 0
    }

    /// How many samples are averaged for one pixel.
    pub fn sample_count(&self) -> (n: u64)
        ensures
            n == self.spec_sample_count(),
            n >= 1,
    {
        if self.aa_samples == 0 {
            1
        } else {
            self.aa_samples
        }
    }

    /// Whether the samples of a pixel are spread at random over the pixel;
    /// a single sample taken in place of none is not.
    pub fn jittered(&self) -> (yes: bool)
        ensures
            yes == (self.aa_samples != 0),
    {
        self.aa_samples != 0
    }
}

} // verus!
