//! Sharing a picture among workers: the tiles that a picture is cut into, how
//! many workers a cut calls for, and what a worker holds and reports.
//!
//! Tiles never overlap, so workers that each fill their own tile never write
//! to the same pixel.

use vstd::prelude::*;
use vstd::arithmetic::div_mod::{lemma_fundamental_div_mod, lemma_fundamental_div_mod_converse};
use vstd::arithmetic::power::{lemma_pow_increases, pow};
use rand::rngs::ThreadRng;
use crate::aliases::{Pixel, Sector, RGB};

verus! {

/// The generator of the `rand` crate that is local to one thread. The library
/// stores and hands on such a generator and never looks inside it.
#[verifier::external_type_specification]
#[verifier::external_body]
pub struct ExThreadRng(ThreadRng);

/// What a worker reports to the thread that assembles the picture.
pub enum Msg {
    /// The colour of one pixel.
    Draw(Pixel, RGB),
    /// The worker has finished its tile.
    End,
}

/// What one worker owns: its tile of the picture and a random number
/// generator of its own, so that workers never contend for one.
pub struct ThreadData {
    pub section: Sector,
    pub rng: ThreadRng,
}

/// Whether pixel `p` lies in sector `s`.
pub open spec fn sector_contains(s: Sector, p: Pixel) -> bool {
    s.0 <= p.0 < s.2 && s.1 <= p.1 < s.3
}

/// The width of the tiles that cutting `sect` into `div` columns gives.
pub open spec fn tile_width(div: u64, sect: Sector) -> int {
    (sect.2 - sect.0) / (div as int)
}

/// The height of the tiles that cutting `sect` into `div` rows gives.
pub open spec fn tile_height(div: u64, sect: Sector) -> int {
    (sect.3 - sect.1) / (div as int)
}

/// The tile in column `x` and row `y` of the cut. Tiles are laid out from
/// the origin: of `sect` only the size counts, not where it lies.
pub open spec fn tile(div: u64, sect: Sector, x: int, y: int) -> Sector {
    (
        (x * tile_width(div, sect)) as u64,
        (y * tile_height(div, sect)) as u64,
        ((x + 1) * tile_width(div, sect)) as u64,
        ((y + 1) * tile_height(div, sect)) as u64,
    )
}

/// All `div * div` tiles of the cut, column after column, each column from
/// row 0 on.
pub open spec fn tiling(div: u64, sect: Sector) -> Seq<Sector> {
    Seq::new((div * div) as nat, |k: int| tile(div, sect, k / (div as int), k % (div as int)))
}

/// The colour of pixel `xy` before anything has been drawn: black.
pub fn get_pixel(xy: Pixel) -> (rgb: RGB)
    ensures
        rgb == (0u8, 0u8, 0u8),
{
    (0, 0, 0)
}

/// How many workers `div` rounds of quartering the picture call for:
/// four to the power of `div - 1`.
pub fn thread_count(div: u64) -> (n: u64)
    requires
        1 <= div <= 32,
    ensures
        n == pow(4, (div - 1) as nat),
{
    let mut n: u64 = 1;
    let mut round: u64 = 1;
    proof {
        reveal(pow);
    }
    while round < div
        invariant
            1 <= round <= div <= 32,
            n == pow(4, (round - 1) as nat),
        decreases div - round,
    {
        proof {
            lemma_pow_increases(4, (round - 1) as nat, 30);
            assert(pow(4, 30) == 0x1000_0000_0000_0000) by {
                reveal_with_fuel(pow, 31);
            }
            assert(pow(4, round as nat) == 4 * pow(4, (round - 1) as nat)) by {
                reveal(pow);
            }
        }
        n = n * 4;
        round = round + 1;
    }
    n
}

/// Cuts a sector into `div` by `div` tiles of equal size.
///
/// A sector whose width or height `div` does not divide leaves a margin on
/// its right or lower edge that belongs to no tile.
pub fn subdivide(div: u64, sect: Sector) -> (tiles: Vec<Sector>)
    requires
        div > 0,
        sect.0 <= sect.2,
        sect.1 <= sect.3,
    ensures
        tiles@ == tiling(div, sect),
{
    let (x1, y1, x2, y2) = sect;
    let mut buf: Vec<Sector> = Vec::new();
    let width = x2 - x1;
    let height = y2 - y1;
    let srw = width / div;
    let srh = height / div;
    proof {
        lemma_fundamental_div_mod(width as int, div as int);
        lemma_fundamental_div_mod(height as int, div as int);
        assert(div * srw <= width) by (nonlinear_arith)
            requires
                width == div * srw + (width % div),
                0 <= width % div,
        ;
        assert(div * srh <= height) by (nonlinear_arith)
            requires
                height == div * srh + (height % div),
                0 <= height % div,
        ;
    }
    let mut x: u64 = 0;
    while x < div
        invariant
            x <= div,
            div > 0,
            srw == tile_width(div, sect),
            srh == tile_height(div, sect),
            div * srw <= u64::MAX,
            div * srh <= u64::MAX,
            buf@.len() == x * div,
            forall|k: int|
                0 <= k < buf@.len() ==> #[trigger] buf@[k] == tile(
                    div,
                    sect,
                    k / (div as int),
                    k % (div as int),
                ),
        decreases div - x,
    {
        let mut y: u64 = 0;
        while y < div
            invariant
                x < div,
                y <= div,
                srw == tile_width(div, sect),
                srh == tile_height(div, sect),
                div * srw <= u64::MAX,
                div * srh <= u64::MAX,
                buf@.len() == x * div + y,
                forall|k: int|
                    0 <= k < buf@.len() ==> #[trigger] buf@[k] == tile(
                        div,
                        sect,
                        k / (div as int),
                        k % (div as int),
                    ),
            decreases div - y,
        {
            proof {
                assert((x + 1) * srw <= div * srw) by (nonlinear_arith)
                    requires
                        x + 1 <= div,
                        0 <= srw,
                ;
                assert(x * srw <= (x + 1) * srw) by (nonlinear_arith)
                    requires
                        0 <= x,
                        0 <= srw,
                ;
                assert((y + 1) * srh <= div * srh) by (nonlinear_arith)
                    requires
                        y + 1 <= div,
                        0 <= srh,
                ;
                assert(y * srh <= (y + 1) * srh) by (nonlinear_arith)
                    requires
                        0 <= y,
                        0 <= srh,
                ;
                lemma_fundamental_div_mod_converse(
                    x * div + y,
                    div as int,
                    x as int,
                    y as int,
                );
            }
            buf.push((x * srw, y * srh, (x + 1) * srw, (y + 1) * srh));
            y = y + 1;
        }
        assert(x * div + div == (x + 1) * div) by (nonlinear_arith);
        x = x + 1;
    }
    assert(buf@ =~= tiling(div, sect));
    buf
}

/// Column and row of the tile that stands at place `k` of the cut.
proof fn lemma_tile_place(div: u64, k: int)
    requires
        div > 0,
        0 <= k < div * div,
    ensures
        0 <= k / (div as int) < div,
        0 <= k % (div as int) < div,
        k == (k / (div as int)) * div + k % (div as int),
{
    let d = div as int;
    lemma_fundamental_div_mod(k, d);
    assert(0 <= k / d < d) by (nonlinear_arith)
        requires
            k == d * (k / d) + k % d,
            0 <= k % d < d,
            0 <= k < d * d,
    ;
    assert((k / d) * d == d * (k / d)) by (nonlinear_arith);
}

/// No pixel lies in two tiles of one cut.
pub proof fn lemma_tiles_disjoint(div: u64, sect: Sector, a: int, b: int, p: Pixel)
    requires
        div > 0,
        sect.0 <= sect.2,
        sect.1 <= sect.3,
        0 <= a < div * div,
        0 <= b < div * div,
        a != b,
    ensures
        !(sector_contains(tiling(div, sect)[a], p) && sector_contains(tiling(div, sect)[b], p)),
{
    let d = div as int;
    let w = tile_width(div, sect);
    let h = tile_height(div, sect);
    lemma_tile_place(div, a);
    lemma_tile_place(div, b);
    lemma_tile_inside(div, sect, a);
    lemma_tile_inside(div, sect, b);
    let (xa, ya) = (a / d, a % d);
    let (xb, yb) = (b / d, b % d);
    if xa < xb {
        assert((xa + 1) * w <= xb * w) by (nonlinear_arith)
            requires
                xa + 1 <= xb,
                0 <= w,
        ;
    } else if xb < xa {
        assert((xb + 1) * w <= xa * w) by (nonlinear_arith)
            requires
                xb + 1 <= xa,
                0 <= w,
        ;
    } else if ya < yb {
        assert((ya + 1) * h <= yb * h) by (nonlinear_arith)
            requires
                ya + 1 <= yb,
                0 <= h,
        ;
    } else {
        assert(yb < ya);
        assert((yb + 1) * h <= ya * h) by (nonlinear_arith)
            requires
                yb + 1 <= ya,
                0 <= h,
        ;
    }
}

/// Every tile of a cut lies inside a picture of the sector's size, and its
/// corners are written without loss.
pub proof fn lemma_tile_inside(div: u64, sect: Sector, k: int)
    requires
        div > 0,
        sect.0 <= sect.2,
        sect.1 <= sect.3,
        0 <= k < div * div,
    ensures
        tiling(div, sect)[k].0 == (k / (div as int)) * tile_width(div, sect),
        tiling(div, sect)[k].1 == (k % (div as int)) * tile_height(div, sect),
        tiling(div, sect)[k].2 == (k / (div as int) + 1) * tile_width(div, sect),
        tiling(div, sect)[k].3 == (k % (div as int) + 1) * tile_height(div, sect),
        tiling(div, sect)[k].0 <= tiling(div, sect)[k].2 <= sect.2 - sect.0,
        tiling(div, sect)[k].1 <= tiling(div, sect)[k].3 <= sect.3 - sect.1,
{
    let d = div as int;
    let w = tile_width(div, sect);
    let h = tile_height(div, sect);
    let x = k / d;
    let y = k % d;
    lemma_tile_place(div, k);
    lemma_fundamental_div_mod(sect.2 - sect.0, d);
    lemma_fundamental_div_mod(sect.3 - sect.1, d);
    assert(0 <= w && 0 <= x * w <= (x + 1) * w <= d * w <= sect.2 - sect.0) by (nonlinear_arith)
        requires
            sect.2 - sect.0 == d * w + (sect.2 - sect.0) % d,
            0 <= (sect.2 - sect.0) % d < d,
            0 <= x < d,
            0 <= sect.2 - sect.0,
    ;
    assert(0 <= h && 0 <= y * h <= (y + 1) * h <= d * h <= sect.3 - sect.1) by (nonlinear_arith)
        requires
            sect.3 - sect.1 == d * h + (sect.3 - sect.1) % d,
            0 <= (sect.3 - sect.1) % d < d,
            0 <= y < d,
            0 <= sect.3 - sect.1,
    ;
}

/// Where `div` divides both the width and the height of the sector, the
/// tiles leave no margin: every pixel of a picture of that size lies in one.
pub proof fn lemma_tiles_cover(div: u64, sect: Sector, p: Pixel) -> (k: int)
    requires
        div > 0,
        sect.0 <= sect.2,
        sect.1 <= sect.3,
        (sect.2 - sect.0) % (div as int) == 0,
        (sect.3 - sect.1) % (div as int) == 0,
        p.0 < sect.2 - sect.0,
        p.1 < sect.3 - sect.1,
    ensures
        0 <= k < div * div,
        sector_contains(tiling(div, sect)[k], p),
{
    let d = div as int;
    let w = tile_width(div, sect);
    let h = tile_height(div, sect);
    lemma_fundamental_div_mod(sect.2 - sect.0, d);
    lemma_fundamental_div_mod(sect.3 - sect.1, d);
    assert(w > 0) by (nonlinear_arith)
        requires
            sect.2 - sect.0 == d * w,
            sect.2 - sect.0 > 0,
            d > 0,
    ;
    assert(h > 0) by (nonlinear_arith)
        requires
            sect.3 - sect.1 == d * h,
            sect.3 - sect.1 > 0,
            d > 0,
    ;
    let x = p.0 as int / w;
    let y = p.1 as int / h;
    lemma_fundamental_div_mod(p.0 as int, w);
    lemma_fundamental_div_mod(p.1 as int, h);
    assert(0 <= x < d && x * w <= p.0 < (x + 1) * w) by (nonlinear_arith)
        requires
            p.0 == w * x + p.0 as int % w,
            0 <= p.0 as int % w < w,
            0 <= p.0 < d * w,
    ;
    assert(0 <= y < d && y * h <= p.1 < (y + 1) * h) by (nonlinear_arith)
        requires
            p.1 == h * y + p.1 as int % h,
            0 <= p.1 as int % h < h,
            0 <= p.1 < d * h,
    ;
    let k = x * d + y;
    lemma_fundamental_div_mod_converse(k, d, x, y);
    assert(0 <= k < d * d) by (nonlinear_arith)
        requires
            k == x * d + y,
            0 <= x < d,
            0 <= y < d,
    ;
    lemma_tile_inside(div, sect, k);
    k
}

} // verus!
