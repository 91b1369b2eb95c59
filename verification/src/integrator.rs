//! The bounce budget of the integrator.
//!
//! A camera ray is followed from surface to surface. Each scattering spends
//! one bounce of the budget it started with; a ray that meets a surface with
//! nothing left contributes black, and a ray that meets nothing takes the
//! colour of the background. This module decides which of the three happens;
//! the colours themselves are the caller's.

use vstd::prelude::*;

verus! {

/// What becomes of a ray once it has been tested against the scene.
#[derive(Clone, Copy, Debug, PartialEq, Eq, Structural)]
pub enum Bounce {
    /// The ray met nothing: it takes the colour of the background.
    Background,
    /// The ray met a surface with no bounce left: it contributes black.
    Exhausted,
    /// The ray met a surface and its material is asked to scatter it. A
    /// scattered ray is followed with the budget held here; an absorbed one
    /// contributes black.
    Scatter(u64),
}

/// The fate of a ray that has `limit` bounces left and did, or did not, meet
/// a surface.
pub open spec fn spec_bounce(hit: bool, limit: u64) -> Bounce {
    if !hit {
        Bounce::Background
    } else if limit == 0 {
        Bounce::Exhausted
    } else {
        Bounce::Scatter((limit - 1) as u64)
    }
}

/// How often a ray with `limit` bounces scatters, where `hits` says of the
/// ray and of each ray scattered from it in turn whether it met a surface,
/// and every surface scatters.
pub open spec fn scatterings(limit: u64, hits: Seq<bool>) -> nat
    decreases hits.len(),
{
    if hits.len() == 0 {
        0
    } else {
        match spec_bounce(hits[0], limit) {
            Bounce::Scatter(rest) => 1 + scatterings(rest, hits.skip(1)),
            _ => 0,
        }
    }
}

/// Decides the fate of a ray that has `limit` bounces left.
pub fn bounce(hit: bool, limit: u64) -> (fate: Bounce)
    ensures
        fate == spec_bounce(hit, limit),
        fate matches Bounce::Scatter(rest) ==> rest < limit,
{
    if !hit {
        Bounce::Background
    } else if limit == 0 {
        Bounce::Exhausted
    } else {
        Bounce::Scatter(limit - 1)
    }
}

/// The budget bounds the path: whatever the rays meet, a ray scatters no
/// more often than it has bounces.
pub proof fn lemma_budget_bounds_path(limit: u64, hits: Seq<bool>)
    ensures
        scatterings(limit, hits) <= limit,
    decreases hits.len(),
{
    if hits.len() > 0 {
        if let Bounce::Scatter(rest) = spec_bounce(hits[0], limit) {
            lemma_budget_bounds_path(rest, hits.skip(1));
        }
    }
}

/// With no bounce to spend the first test settles the colour: a ray that
/// meets a surface is black, any other takes the background.
pub proof fn lemma_no_budget(hit: bool)
    ensures
        hit ==> spec_bounce(hit, 0) == Bounce::Exhausted,
        !hit ==> spec_bounce(hit, 0) == Bounce::Background,
{
}

} // verus!
