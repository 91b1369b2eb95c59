//! The raster buffer and its two portable-pixmap encodings.
//!
//! A raster holds one byte per channel, three channels per pixel, row after
//! row from the top of the picture, each row from left to right.

use vstd::prelude::*;
use crate::aliases::{Pixel, RGB};
use crate::decimal::{decimal, push_decimal};

verus! {

/// ASCII `P`, the first byte of every pixmap header.
pub const LETTER_P: u8 = 80;

/// ASCII `3`, the format digit of the plain-text pixmap.
pub const PLAIN_DIGIT: u8 = 51;

/// ASCII `6`, the format digit of the binary pixmap.
pub const BINARY_DIGIT: u8 = 54;

/// ASCII line feed.
pub const NEWLINE: u8 = 10;

/// ASCII space.
pub const SPACE: u8 = 32;

/// The header of a pixmap: the letter `P` and the format digit, then width
/// and height in decimal, then the largest channel value, 255, each on a line
/// of its own.
pub open spec fn header_bytes(format: u8, width: nat, height: nat) -> Seq<u8> {
    seq![LETTER_P, format, NEWLINE] + decimal(width) + seq![SPACE] + decimal(height)
        + seq![NEWLINE] + decimal(255) + seq![NEWLINE]
}

/// One line of the plain-text pixmap: the three channels in decimal, parted
/// by single spaces.
pub open spec fn pixel_line(rgb: RGB) -> Seq<u8> {
    decimal(rgb.0 as nat) + seq![SPACE] + decimal(rgb.1 as nat) + seq![SPACE] + decimal(
        rgb.2 as nat,
    ) + seq![NEWLINE]
}

/// `data` with the three channels of `rgb` written from byte `at` on.
pub open spec fn with_pixel(data: Seq<u8>, at: int, rgb: RGB) -> Seq<u8> {
    data.update(at, rgb.0).update(at + 1, rgb.1).update(at + 2, rgb.2)
}

/// The pixel that starts at byte `3 * k` of `data`.
pub open spec fn nth_pixel(data: Seq<u8>, k: int) -> RGB {
    (data[3 * k], data[3 * k + 1], data[3 * k + 2])
}

/// The lines of the first `count` pixels of `data`, in order.
pub open spec fn pixel_lines(data: Seq<u8>, count: nat) -> Seq<u8>
    decreases count,
{
    if count == 0 {
        Seq::empty()
    } else {
        pixel_lines(data, (count - 1) as nat) + pixel_line(nth_pixel(data, count - 1))
    }
}

/// The binary pixmap of a raster: its header, then the raster bytes as they are.
pub open spec fn binary_pixmap(width: nat, height: nat, data: Seq<u8>) -> Seq<u8> {
    header_bytes(BINARY_DIGIT, width, height) + data
}

/// The plain-text pixmap of a raster: its header, then one line for each
/// whole pixel of the raster.
pub open spec fn plain_pixmap(width: nat, height: nat, data: Seq<u8>) -> Seq<u8> {
    header_bytes(PLAIN_DIGIT, width, height) + pixel_lines(data, data.len() / 3)
}

/// Appends the header of a pixmap of the given format to `out`.
pub fn push_header(out: &mut Vec<u8>, format: u8, width: u64, height: u64)
    ensures
        final(out)@ == old(out)@ + header_bytes(format, width as nat, height as nat),
{
    out.push(LETTER_P);
    out.push(format);
    out.push(NEWLINE);
    push_decimal(out, width);
    out.push(SPACE);
    push_decimal(out, height);
    out.push(NEWLINE);
    push_decimal(out, 255);
    out.push(NEWLINE);
    assert(out@ =~= old(out)@ + header_bytes(format, width as nat, height as nat));
}

/// Appends the plain-text line of one pixel to `out`.
pub fn push_pixel_line(out: &mut Vec<u8>, rgb: RGB)
    ensures
        final(out)@ == old(out)@ + pixel_line(rgb),
{
    push_decimal(out, rgb.0 as u64);
    out.push(SPACE);
    push_decimal(out, rgb.1 as u64);
    out.push(SPACE);
    push_decimal(out, rgb.2 as u64);
    out.push(NEWLINE);
    assert(out@ =~= old(out)@ + pixel_line(rgb));
}

/// A picture of `width` by `height` pixels, three bytes each.
pub struct PPMBuffer {
    pub width: u64,
    pub height: u64,
    pub size: usize,
    pub buffer: Vec<u8>,
}

impl PPMBuffer {
    /// The raster is whole: it holds three bytes for each of its
    /// `width * height` pixels and `size` counts them.
    pub open spec fn wf(&self) -> bool {
        &&& self.size == self.width * self.height * 3
        &&& self.buffer@.len() == self.size
    }

    /// Where the first byte of the pixel in column `x` of row `y` lies.
    pub open spec fn offset(&self, x: int, y: int) -> int {
        y * self.width * 3 + x * 3
    }

    /// The colour stored for column `x` of row `y`; row 0 is the top row.
    pub open spec fn pixel(&self, x: int, y: int) -> RGB {
        let at = self.offset(x, y);
        (self.buffer@[at], self.buffer@[at + 1], self.buffer@[at + 2])
    }

    /// How many bytes a picture of the given size takes, or `None` where the
    /// machine cannot address that many.
    pub fn byte_count(width: u64, height: u64) -> (count: Option<usize>)
        ensures
            count matches Some(n) ==> n == width * height * 3,
            count is None <==> width * height * 3 > usize::MAX,
    {
        assert(width * height <= 0xffff_ffff_ffff_ffff * 0xffff_ffff_ffff_ffff) by (nonlinear_arith)
            requires
                0 <= width <= 0xffff_ffff_ffff_ffff,
                0 <= height <= 0xffff_ffff_ffff_ffff,
        ;
        let cells: u128 = width as u128 * height as u128;
        if cells > (usize::MAX / 3) as u128 {
            None
        } else {
            Some((cells * 3) as usize)
        }
    }

    /// A black picture of the given size.
    pub fn new(width: u64, height: u64) -> (img: PPMBuffer)
        requires
            width * height * 3 <= usize::MAX,
        ensures
            img.wf(),
            img.width == width,
            img.height == height,
            img.buffer@ == Seq::new((width * height * 3) as nat, |i: int| 0u8),
    {
        assert(width * height <= width * height * 3) by (nonlinear_arith);
        let size = (width * height * 3) as usize;
        let buffer: Vec<u8> = vec![0u8; size];
        assert(buffer@ =~= Seq::new((width * height * 3) as nat, |i: int| 0u8));
        PPMBuffer { width, height, size, buffer }
    }

    /// Stores `rgb` at column `xy.0` of row `xy.1`, if the three bytes of that
    /// place lie inside the raster, and says whether it did. The place is
    /// found by its offset alone, so a column beyond the width runs on into
    /// the following rows.
    pub fn set_pix(&mut self, xy: Pixel, rgb: RGB) -> (stored: bool)
        requires
            old(self).wf(),
        ensures
            final(self).wf(),
            final(self).width == old(self).width,
            final(self).height == old(self).height,
            final(self).size == old(self).size,
            stored == (old(self).offset(xy.0 as int, xy.1 as int) + 3 <= old(self).size),
            stored ==> final(self).buffer@ == with_pixel(
                old(self).buffer@,
                old(self).offset(xy.0 as int, xy.1 as int),
                rgb,
            ),
            !stored ==> final(self).buffer@ == old(self).buffer@,
    {
        let (x, y) = xy;
        let (r, g, b) = rgb;
        assert(y * self.width <= 0xffff_ffff_ffff_ffff * 0xffff_ffff_ffff_ffff) by (nonlinear_arith)
            requires
                0 <= y <= 0xffff_ffff_ffff_ffff,
                0 <= self.width <= 0xffff_ffff_ffff_ffff,
        ;
        let cell: u128 = y as u128 * self.width as u128 + x as u128;
        let cells: u128 = (self.size / 3) as u128;
        assert(self.offset(x as int, y as int) == 3 * cell) by (nonlinear_arith)
            requires
                cell == y * self.width + x,
                self.offset(x as int, y as int) == y * self.width * 3 + x * 3,
        ;
        if cell >= cells {
            return false;
        }
        let offset: usize = (cell * 3) as usize;
        self.buffer[offset] = r;
        self.buffer[offset + 1] = g;
        self.buffer[offset + 2] = b;
        true
    }

    /// The header of the binary pixmap of this picture.
    pub fn header(&self) -> (bytes: Vec<u8>)
        ensures
            bytes@ == header_bytes(BINARY_DIGIT, self.width as nat, self.height as nat),
    {
        let mut bytes: Vec<u8> = Vec::new();
        push_header(&mut bytes, BINARY_DIGIT, self.width, self.height);
        bytes
    }

    /// The picture as a binary pixmap.
    pub fn to_bytes(&self) -> (bytes: Vec<u8>)
        ensures
            bytes@ == binary_pixmap(self.width as nat, self.height as nat, self.buffer@),
    {
        let mut bytes = self.header();
        let mut at: usize = 0;
        while at < self.buffer.len()
            invariant
                at <= self.buffer@.len(),
                bytes@ == header_bytes(BINARY_DIGIT, self.width as nat, self.height as nat)
                    + self.buffer@.subrange(0, at as int),
            decreases self.buffer@.len() - at,
        {
            bytes.push(self.buffer[at]);
            at = at + 1;
            assert(self.buffer@.subrange(0, at as int) =~= self.buffer@.subrange(0, at - 1).push(
                self.buffer@[at - 1],
            ));
        }
        assert(self.buffer@.subrange(0, at as int) =~= self.buffer@);
        bytes
    }

    /// The picture as a plain-text pixmap.
    pub fn to_text(&self) -> (bytes: Vec<u8>)
        ensures
            bytes@ == plain_pixmap(self.width as nat, self.height as nat, self.buffer@),
    {
        let mut bytes: Vec<u8> = Vec::new();
        push_header(&mut bytes, PLAIN_DIGIT, self.width, self.height);
        let count: usize = self.buffer.len() / 3;
        let mut k: usize = 0;
        while k < count
            invariant
                k <= count,
                count == self.buffer.len() / 3,
                bytes@ == header_bytes(PLAIN_DIGIT, self.width as nat, self.height as nat)
                    + pixel_lines(self.buffer@, k as nat),
            decreases count - k,
        {
            let rgb: RGB = (self.buffer[3 * k], self.buffer[3 * k + 1], self.buffer[3 * k + 2]);
            assert(rgb == nth_pixel(self.buffer@, k as int));
            push_pixel_line(&mut bytes, rgb);
            k = k + 1;
            assert(bytes@ =~= header_bytes(PLAIN_DIGIT, self.width as nat, self.height as nat)
                + pixel_lines(self.buffer@, k as nat));
        }
        bytes
    }
}

} // verus!
