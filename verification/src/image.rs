//! Pixel buffers in the layout of a 32-bit image surface: four bytes to the
//! pixel, in memory blue, green, red, alpha, colours premultiplied by alpha.

use vstd::prelude::*;

verus! {

/// The longest side an image surface may have.
pub const MAX_SIDE: i32 = 32767;

/// The bytes of one pixel: blue, green, red, alpha.
pub type Bgra = (u8, u8, u8, u8);

/// Where the bytes of a pixel start, in an image without row padding.
pub open spec fn pixel_start(w: int, x: int, y: int) -> int {
    4 * (y * w + x)
}

/// The four bytes at an offset.
pub open spec fn pixel_at(data: Seq<u8>, start: int) -> Bgra {
    (data[start], data[start + 1], data[start + 2], data[start + 3])
}

/// Different pixels do not share bytes, and every pixel lies in the image.
pub proof fn lemma_pixel_start(w: int, h: int, x: int, y: int, x2: int, y2: int)
    requires
        0 <= x < w,
        0 <= y < h,
        0 <= x2 < w,
        0 <= y2 < h,
    ensures
        0 <= pixel_start(w, x, y),
        pixel_start(w, x, y) + 4 <= 4 * (w * h),
        (x, y) != (x2, y2) ==> pixel_start(w, x, y) + 4 <= pixel_start(w, x2, y2) || pixel_start(
            w,
            x2,
            y2,
        ) + 4 <= pixel_start(w, x, y),
{
    assert(y * w >= 0 && y * w + w <= h * w) by (nonlinear_arith)
        requires
            0 <= y < h,
            w > 0,
    ;
    assert(h * w == w * h) by (nonlinear_arith);
    if y < y2 {
        assert(y * w + w <= y2 * w) by (nonlinear_arith)
            requires
                y < y2,
                w > 0,
        ;
    } else if y2 < y {
        assert(y2 * w + w <= y * w) by (nonlinear_arith)
            requires
                y2 < y,
                w > 0,
        ;
    }
}

/// The bytes of an image fit in memory on every platform.
pub proof fn lemma_image_bytes(w: int, h: int)
    requires
        0 <= w <= MAX_SIDE,
        0 <= h <= MAX_SIDE,
    ensures
        0 <= w * h <= 0x3FFF_0001,
        4 * (w * h) <= u32::MAX,
{
    assert(0 <= w * h <= 32767 * 32767) by (nonlinear_arith)
        requires
            0 <= w <= 32767,
            0 <= h <= 32767,
    ;
}

/// A finished image without row padding.
pub struct Argb32Image {
    w: i32,
    h: i32,
    data: Vec<u8>,
}

impl Argb32Image {
    #[verifier::type_invariant]
    pub closed spec fn well_formed(self) -> bool {
        &&& 0 <= self.w <= MAX_SIDE
        &&& 0 <= self.h <= MAX_SIDE
        &&& self.data@.len() == 4 * (self.w * self.h)
    }

    /// The width in pixels.
    pub closed spec fn spec_width(self) -> int {
        self.w as int
    }

    /// The height in pixels.
    pub closed spec fn spec_height(self) -> int {
        self.h as int
    }

    /// All bytes, row after row from the top.
    pub closed spec fn bytes(self) -> Seq<u8> {
        self.data@
    }

    /// The pixel in column `x` of row `y`.
    pub open spec fn pixel(self, x: int, y: int) -> Bgra {
        pixel_at(self.bytes(), pixel_start(self.spec_width(), x, y))
    }

    /// Wraps the bytes of an image.
    pub fn from_bytes(w: i32, h: i32, data: Vec<u8>) -> (r: Argb32Image)
        requires
            0 <= w <= MAX_SIDE,
            0 <= h <= MAX_SIDE,
            data@.len() == 4 * (w * h),
        ensures
            r.spec_width() == w,
            r.spec_height() == h,
            r.bytes() == data@,
    {
        Argb32Image { w, h, data }
    }

    pub fn width(&self) -> (r: i32)
        ensures
            r == self.spec_width(),
            0 <= r <= MAX_SIDE,
    {
        proof {
            use_type_invariant(self);
        }
        self.w
    }

    pub fn height(&self) -> (r: i32)
        ensures
            r == self.spec_height(),
            0 <= r <= MAX_SIDE,
    {
        proof {
            use_type_invariant(self);
        }
        self.h
    }

    /// The number of bytes from one row to the next.
    pub fn stride(&self) -> (r: i32)
        ensures
            r == 4 * self.spec_width(),
    {
        proof {
            use_type_invariant(self);
        }
        4 * self.w
    }

    pub fn data(&self) -> (r: &[u8])
        ensures
            r@ == self.bytes(),
            r@.len() == 4 * (self.spec_width() * self.spec_height()),
    {
        proof {
            use_type_invariant(self);
        }
        self.data.as_slice()
    }

    /// Hands the bytes out.
    pub fn into_data(self) -> (r: Vec<u8>)
        ensures
            r@ == self.bytes(),
            r@.len() == 4 * (self.spec_width() * self.spec_height()),
    {
        proof {
            use_type_invariant(&self);
        }
        self.data
    }

    /// Looks at the image's own bytes.
    pub fn pixels(&self) -> (r: Pixels<'_>)
        ensures
            r.spec_width() == self.spec_width(),
            r.spec_height() == self.spec_height(),
            r.row_bytes() == 4 * self.spec_width(),
            r.bytes() == self.bytes(),
    {
        proof {
            use_type_invariant(self);
            assert(self.h * (4 * self.w) == 4 * (self.w * self.h)) by (nonlinear_arith);
        }
        Pixels { w: self.w, h: self.h, stride: (4 * self.w) as usize, data: self.data.as_slice() }
    }
}

/// Borrowed pixels, possibly with padding at the end of each row.
#[derive(Clone, Copy)]
pub struct Pixels<'a> {
    w: i32,
    h: i32,
    stride: usize,
    data: &'a [u8],
}

impl<'a> Pixels<'a> {
    #[verifier::type_invariant]
    pub closed spec fn well_formed(self) -> bool {
        &&& 0 <= self.w <= MAX_SIDE
        &&& 0 <= self.h <= MAX_SIDE
        &&& 4 * self.w <= self.stride
        &&& self.h * self.stride <= self.data@.len()
    }

    /// The width in pixels.
    pub closed spec fn spec_width(self) -> int {
        self.w as int
    }

    /// The height in pixels.
    pub closed spec fn spec_height(self) -> int {
        self.h as int
    }

    /// The number of bytes from one row to the next.
    pub closed spec fn row_bytes(self) -> int {
        self.stride as int
    }

    /// All bytes, row after row from the top.
    pub closed spec fn bytes(self) -> Seq<u8> {
        self.data@
    }

    /// The pixel in column `x` of row `y`.
    pub open spec fn pixel(self, x: int, y: int) -> Bgra {
        pixel_at(self.bytes(), y * self.row_bytes() + x * 4)
    }

    /// There is a pixel in column `x` of row `y`.
    pub open spec fn has(self, x: int, y: int) -> bool {
        &&& 0 <= x < self.spec_width()
        &&& 0 <= y < self.spec_height()
    }

    /// Looks at the bytes of a surface. The bytes have to cover every row, and
    /// a row every pixel.
    pub fn new(w: i32, h: i32, stride: usize, data: &'a [u8]) -> (r: Option<Pixels<'a>>)
        ensures
            r is Some <==> 0 <= w <= MAX_SIDE && 0 <= h <= MAX_SIDE && 4 * w <= stride && h * stride
                <= data@.len(),
            r matches Some(p) ==> p.spec_width() == w && p.spec_height() == h && p.row_bytes()
                == stride && p.bytes() == data@,
    {
        if w < 0 || w > MAX_SIDE || h < 0 || h > MAX_SIDE {
            return None;
        }
        if (4 * w) as usize > stride {
            return None;
        }
        assert(0 <= h * stride <= 32767 * 0xFFFF_FFFF_FFFF_FFFF) by (nonlinear_arith)
            requires
                0 <= h <= 32767,
                0 <= stride <= 0xFFFF_FFFF_FFFF_FFFF,
        ;
        if (h as u128) * (stride as u128) > data.len() as u128 {
            return None;
        }
        Some(Pixels { w, h, stride, data })
    }

    pub fn width(&self) -> (r: i32)
        ensures
            r == self.spec_width(),
            0 <= r <= MAX_SIDE,
    {
        proof {
            use_type_invariant(self);
        }
        self.w
    }

    pub fn height(&self) -> (r: i32)
        ensures
            r == self.spec_height(),
            0 <= r <= MAX_SIDE,
    {
        proof {
            use_type_invariant(self);
        }
        self.h
    }

    /// Reads one pixel.
    pub fn get(&self, x: i32, y: i32) -> (r: Bgra)
        requires
            self.has(x as int, y as int),
        ensures
            r == self.pixel(x as int, y as int),
    {
        let total: usize = self.data.len();
        proof {
            use_type_invariant(self);
            let h = self.h as int;
            let s = self.stride as int;
            assert(h * s <= total);
            assert(0 <= y * s && y * s + s <= h * s) by (nonlinear_arith)
                requires
                    0 <= y < h,
                    0 <= s,
            ;
        }
        let off: usize = y as usize * self.stride + x as usize * 4;
        (self.data[off], self.data[off + 1], self.data[off + 2], self.data[off + 3])
    }
}

/// A pixel of an image is made of four bytes in a row, blue first. Its column
/// counts four bytes, its row four times the width.
pub proof fn law_image_layout(img: Argb32Image, x: int, y: int)
    ensures
        ({
            let at = 4 * img.spec_width() * y + 4 * x;
            let (b, g, r, a) = img.pixel(x, y);
            &&& b == img.bytes()[at]
            &&& g == img.bytes()[at + 1]
            &&& r == img.bytes()[at + 2]
            &&& a == img.bytes()[at + 3]
        }),
{
    let w = img.spec_width();
    assert(4 * (y * w + x) == 4 * w * y + 4 * x) by (nonlinear_arith);
}

/// A borrowed pixel is made of four bytes in a row, blue first. Its column counts
/// four bytes, its row the bytes from one row to the next.
pub proof fn law_pixels_layout(p: Pixels, x: int, y: int)
    ensures
        ({
            let at = p.row_bytes() * y + 4 * x;
            let (b, g, r, a) = p.pixel(x, y);
            &&& b == p.bytes()[at]
            &&& g == p.bytes()[at + 1]
            &&& r == p.bytes()[at + 2]
            &&& a == p.bytes()[at + 3]
        }),
        p.has(x, y) <==> 0 <= x && x < p.spec_width() && 0 <= y && y < p.spec_height(),
{
    let s = p.row_bytes();
    assert(y * s == s * y) by (nonlinear_arith);
}

} // verus!
