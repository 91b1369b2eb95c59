//! The render loop: every pixel of the picture is shaded once, rows from the
//! top of the picture downwards and each row from left to right, and lands in
//! the raster at its own place.
//!
//! What a pixel looks like is the caller's business. The loop hands the
//! shader the pixel's column and its height above the bottom row of the image
//! plane, and stores what comes back.

use vstd::prelude::*;
use crate::aliases::RGB;
use crate::ppm::PPMBuffer;
use crate::settings::Settings;

verus! {

/// The height above the bottom of the image plane of raster row `row`:
/// the top row of a picture of `height` rows is `height - 1` above it.
pub open spec fn plane_row(height: u64, row: int) -> u64 {
    (height - 1 - row) as u64
}

/// `img` is a picture of `width` by `height` pixels in which every pixel
/// holds a colour that `shade` can give for it.
pub open spec fn rendered<F: Fn(u64, u64) -> RGB>(
    img: PPMBuffer,
    width: u64,
    height: u64,
    shade: F,
) -> bool {
    &&& img.wf()
    &&& img.width == width
    &&& img.height == height
    &&& forall|x: int, y: int|
        0 <= x < width && 0 <= y < height ==> call_ensures(
            shade,
            (x as u64, plane_row(height, y)),
            #[trigger] img.pixel(x, y),
        )
}

/// `shade` gives each pixel one colour only.
pub open spec fn single_valued<F: Fn(u64, u64) -> RGB>(shade: F) -> bool {
    forall|i: u64, j: u64, c: RGB, d: RGB|
        call_ensures(shade, (i, j), c) && call_ensures(shade, (i, j), d) ==> c == d
}

/// Pixels are numbered row by row: one that comes earlier in reading order
/// has the smaller number.
proof fn lemma_reading_order(width: int, x: int, y: int, u: int, v: int)
    requires
        0 <= x < width,
        0 <= u < width,
        0 <= y,
        y < v || (y == v && x < u),
    ensures
        y * width + x < v * width + u,
{
    if y < v {
        assert(y * width + width <= v * width) by (nonlinear_arith)
            requires
                y + 1 <= v,
                0 <= width,
        ;
    }
}

/// Renders the picture that `set` asks for.
pub fn render<F: Fn(u64, u64) -> RGB>(set: &Settings, shade: F) -> (img: PPMBuffer)
    requires
        set.width * set.height * 3 <= usize::MAX,
        forall|i: u64, j: u64| i < set.width && j < set.height ==> call_requires(shade, (i, j)),
    ensures
        rendered(img, set.width, set.height, shade),
{
    let width = set.width;
    let height = set.height;
    let mut img = PPMBuffer::new(width, height);
    let mut row: u64 = 0;
    while row < height
        invariant
            row <= height,
            img.wf(),
            img.width == width,
            img.height == height,
            forall|i: u64, j: u64| i < width && j < height ==> call_requires(shade, (i, j)),
            forall|x: int, y: int|
                0 <= x < width && 0 <= y < row ==> call_ensures(
                    shade,
                    (x as u64, plane_row(height, y)),
                    #[trigger] img.pixel(x, y),
                ),
        decreases height - row,
    {
        let above: u64 = height - 1 - row;
        let mut column: u64 = 0;
        while column < width
            invariant
                row < height,
                column <= width,
                above == plane_row(height, row as int),
                img.wf(),
                img.width == width,
                img.height == height,
                forall|i: u64, j: u64| i < width && j < height ==> call_requires(shade, (i, j)),
                forall|x: int, y: int|
                    0 <= x < width && (0 <= y < row || (y == row && x < column))
                        ==> call_ensures(
                        shade,
                        (x as u64, plane_row(height, y)),
                        #[trigger] img.pixel(x, y),
                    ),
            decreases width - column,
        {
            let rgb = shade(column, above);
            let ghost before = img;
            proof {
                assert((row * width + column) * 3 + 3 <= width * height * 3) by (nonlinear_arith)
                    requires
                        0 <= column < width,
                        0 <= row < height,
                ;
            }
            let stored = img.set_pix((column, row), rgb);
            assert(stored);
            proof {
                assert forall|x: int, y: int|
                    0 <= x < width && (0 <= y < row || (y == row && x < column + 1))
                    implies call_ensures(
                    shade,
                    (x as u64, plane_row(height, y)),
                    #[trigger] img.pixel(x, y),
                ) by {
                    if y == row && x == column {
                        assert(img.pixel(x, y) == rgb);
                    } else {
                        lemma_reading_order(width as int, x, y, column as int, row as int);
                        assert(img.pixel(x, y) == before.pixel(x, y));
                    }
                }
            }
            column = column + 1;
        }
        row = row + 1;
    }
    img
}

/// Rendering is repeatable: two pictures rendered for the same size with a
/// shader that gives each pixel one colour only hold the same bytes, and so
/// do their encodings.
pub proof fn lemma_render_repeatable<F: Fn(u64, u64) -> RGB>(
    shade: F,
    width: u64,
    height: u64,
    first: PPMBuffer,
    second: PPMBuffer,
)
    requires
        rendered(first, width, height, shade),
        rendered(second, width, height, shade),
        single_valued(shade),
    ensures
        first.buffer@ == second.buffer@,
        first.size == second.size,
{
    assert forall|at: int| 0 <= at < first.buffer@.len() implies first.buffer@[at]
        == second.buffer@[at] by {
        let cell = at / 3;
        let w = width as int;
        assert(w > 0 && height > 0) by (nonlinear_arith)
            requires
                0 <= at < width * height * 3,
                w == width,
        ;
        let x = cell % w;
        let y = cell / w;
        vstd::arithmetic::div_mod::lemma_fundamental_div_mod(cell, w);
        assert(0 <= y < height) by (nonlinear_arith)
            requires
                cell == w * y + x,
                0 <= x < w,
                0 <= cell < w * height,
        ;
        assert(y * w == w * y) by (nonlinear_arith);
        assert(first.offset(x, y) == 3 * cell);
        let c = first.pixel(x, y);
        let d = second.pixel(x, y);
        assert(call_ensures(shade, (x as u64, plane_row(height, y)), c));
        assert(call_ensures(shade, (x as u64, plane_row(height, y)), d));
        assert(c == d);
    }
    assert(first.buffer@ =~= second.buffer@);
}

} // verus!
