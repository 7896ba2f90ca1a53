//! The plain-text image: its header and the order of its pixels.
//!
//! The image is a header of three lines (`P3`, the width and the height, the
//! largest level `255`) followed by one line per pixel. Pixels are written
//! row by row from the top row of the picture to the bottom one, and within a
//! row from left to right. Rows are numbered from the bottom, so the first
//! pixel written is column 0 of row `height - 1`.

use crate::units::color::decimal;
use crate::units::color::push_decimal;
use vstd::prelude::*;

verus! {

/// The bytes of the header of an image of the given size.
pub open spec fn header_bytes(width: nat, height: nat) -> Seq<u8> {
    seq![80u8, 51u8, 10u8] + decimal(width) + seq![32u8] + decimal(height) + seq![
        10u8,
        50u8,
        53u8,
        53u8,
        10u8,
    ]
}

/// The header of an image of the given size: `P3`, then the width and the
/// height on one line, then `255`, each line ended by a line feed.
pub fn header(width: u32, height: u32) -> (bytes: Vec<u8>)
    ensures
        bytes@ == header_bytes(width as nat, height as nat),
{
    let mut bytes: Vec<u8> = Vec::new();
    bytes.push(80u8);
    bytes.push(51u8);
    bytes.push(10u8);
    push_decimal(&mut bytes, width);
    bytes.push(32u8);
    push_decimal(&mut bytes, height);
    bytes.push(10u8);
    bytes.push(50u8);
    bytes.push(53u8);
    bytes.push(53u8);
    bytes.push(10u8);
    proof {
        assert(bytes@ =~= header_bytes(width as nat, height as nat));
    }
    bytes
}

/// The column and the row of the `k`-th pixel that is written.
pub open spec fn pixel_at(width: nat, height: nat, k: nat) -> (nat, nat) {
    (k % width, (height - 1 - k / width) as nat)
}

/// The place in the order of writing of the pixel in column `i` of row `j`.
pub open spec fn place_of(width: nat, height: nat, i: nat, j: nat) -> nat {
    ((height - 1 - j) * width + i) as nat
}

/// Every place below `width * height` holds a pixel of the image, and that
/// pixel has this place.
pub proof fn lemma_pixel_in_image(width: nat, height: nat, k: nat)
    requires
        k < width * height,
    ensures
        pixel_at(width, height, k).0 < width,
        pixel_at(width, height, k).1 < height,
        place_of(width, height, pixel_at(width, height, k).0, pixel_at(width, height, k).1) == k,
{
    let w = width as int;
    let h = height as int;
    let q = (k as int) / w;
    let r = (k as int) % w;
    assert(w > 0) by (nonlinear_arith)
        requires
            (k as int) < w * h,
            w >= 0,
            k >= 0,
    ;
    assert(q * w + r == k && 0 <= r < w) by (nonlinear_arith)
        requires
            w > 0,
            q == (k as int) / w,
            r == (k as int) % w,
    ;
    assert(0 <= q < h) by (nonlinear_arith)
        requires
            q * w + r == k,
            0 <= r < w,
            (k as int) < w * h,
            k >= 0,
    ;
    assert((h - 1 - (h - 1 - q)) * w + r == k) by (nonlinear_arith)
        requires
            q * w + r == k,
    ;
}

/// Every pixel of the image has a place below `width * height`, and that
/// place holds this pixel: each pixel is written exactly once.
pub proof fn lemma_place_in_order(width: nat, height: nat, i: nat, j: nat)
    requires
        i < width,
        j < height,
    ensures
        place_of(width, height, i, j) < width * height,
        pixel_at(width, height, place_of(width, height, i, j)) == (i, j),
{
    let w = width as int;
    let h = height as int;
    let q = h - 1 - j;
    let k = q * w + i;
    assert(0 <= k < w * h) by (nonlinear_arith)
        requires
            0 <= q < h,
            0 <= i < w,
            k == q * w + i,
    ;
    assert(k / w == q && k % w == i) by (nonlinear_arith)
        requires
            0 <= i < w,
            k == q * w + i,
    ;
}

/// The rows above `j` are written before row `j`, and within a row the
/// columns are written from left to right.
pub proof fn lemma_order_top_down(width: nat, height: nat, i1: nat, j1: nat, i2: nat, j2: nat)
    requires
        i1 < width,
        i2 < width,
        j1 < height,
        j2 < height,
    ensures
        place_of(width, height, i1, j1) < place_of(width, height, i2, j2) <==> (j1 > j2 || (j1 == j2
            && i1 < i2)),
{
    let w = width as int;
    let a = (height - 1 - j1) as int;
    let b = (height - 1 - j2) as int;
    assert(a * w + i1 < b * w + i2 <==> (a < b || (a == b && i1 < i2))) by (nonlinear_arith)
        requires
            0 <= i1 < w,
            0 <= i2 < w,
            a >= 0,
            b >= 0,
    ;
}

/// Walks the pixels of an image in the order in which they are written.
pub struct PixelOrder {
    width: u32,
    height: u32,
    column: u32,
    rows_left: u32,
}

impl PixelOrder {
    #[verifier::type_invariant]
    spec fn well_formed(self) -> bool {
        &&& self.rows_left <= self.height
        &&& self.column <= self.width
        &&& self.rows_left > 0 ==> self.column < self.width
        &&& self.rows_left == 0 ==> self.column == 0
    }

    pub closed spec fn width(&self) -> nat {
        self.width as nat
    }

    pub closed spec fn height(&self) -> nat {
        self.height as nat
    }

    /// The number of pixels of the image.
    pub open spec fn total(&self) -> nat {
        self.width() * self.height()
    }

    /// The number of pixels handed out so far.
    pub closed spec fn written(&self) -> nat {
        ((self.height - self.rows_left) * self.width + self.column) as nat
    }

    /// The order of an image of the given size, before its first pixel.
    pub fn new(width: u32, height: u32) -> (order: PixelOrder)
        ensures
            order.width() == width,
            order.height() == height,
            order.total() == width * height,
            order.written() == 0,
    {
        PixelOrder { width, height, column: 0, rows_left: if width == 0 {
            0
        } else {
            height
        } }
    }

    /// The column and the row of the next pixel, or `None` once every pixel
    /// of the image has been handed out.
    pub fn next(&mut self) -> (pixel: Option<(u32, u32)>)
        ensures
            final(self).width() == old(self).width(),
            final(self).height() == old(self).height(),
            pixel is Some <==> old(self).written() < old(self).total(),
            pixel matches Some(p) ==> (p.0 as nat, p.1 as nat) == pixel_at(
                old(self).width(),
                old(self).height(),
                old(self).written(),
            ) && final(self).written() == old(self).written() + 1,
            pixel is None ==> *final(self) == *old(self),
    {
        proof {
            use_type_invariant(&*self);
        }
        let ghost w = self.width as int;
        let ghost h = self.height as int;
        let ghost done = (self.height - self.rows_left) as int;
        let ghost c = self.column as int;
        if self.rows_left == 0 {
            proof {
                assert(done * w + c >= w * h) by (nonlinear_arith)
                    requires
                        done == h,
                        c == 0,
                ;
            }
            return None;
        }
        let pixel = (self.column, self.rows_left - 1);
        proof {
            assert((done * w + c) / w == done && (done * w + c) % w == c) by (nonlinear_arith)
                requires
                    0 <= c < w,
                    done >= 0,
            ;
            assert(done * w + c < w * h) by (nonlinear_arith)
                requires
                    0 <= c < w,
                    0 <= done < h,
            ;
            assert((done + 1) * w == done * w + w) by (nonlinear_arith);
        }
        if self.column + 1 < self.width {
            self.column = self.column + 1;
        } else {
            self.column = 0;
            self.rows_left = self.rows_left - 1;
        }
        Some(pixel)
    }
}

} // verus!
