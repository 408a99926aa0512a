//! From PNG files to premultiplied images.

use crate::chunks::{self, find_hazard, Hazard};
use crate::image::{self, Argb32Image, Bgra, MAX_SIDE};
use vstd::prelude::*;

verus! {

/// The errors of the `zune-png` decoder. Nothing is known of their contents.
#[verifier::external_type_specification]
#[verifier::external_body]
pub struct ExPngDecodeErrors(zune_png::error::PngDecodeErrors);

/// The samples of a decoded PNG file.
pub enum PngSamples {
    /// One byte to the sample.
    Eight(Vec<u8>),
    /// Two bytes to the sample.
    Sixteen,
    /// Any other representation.
    Other,
}

/// What [`PngSamples`] holds.
pub enum SampleView {
    Eight(Seq<u8>),
    Sixteen,
    Other,
}

impl View for PngSamples {
    type V = SampleView;

    open spec fn view(&self) -> SampleView {
        match self {
            PngSamples::Eight(v) => SampleView::Eight(v@),
            PngSamples::Sixteen => SampleView::Sixteen,
            PngSamples::Other => SampleView::Other,
        }
    }
}

/// How the samples of a pixel are arranged.
#[derive(Debug, Clone, Copy, PartialEq, Eq, Structural)]
pub enum PngColors {
    Rgb,
    Rgba,
    Other,
}

/// What the decoder found in a PNG file.
pub struct PngPixels {
    pub samples: PngSamples,
    pub dimensions: Option<(usize, usize)>,
    pub colors: Option<PngColors>,
}

/// Why a PNG file gave no image.
#[derive(Debug, Clone, Copy, PartialEq, Eq, Structural)]
pub enum PngError {
    /// The decoder rejected the file.
    Decode,
    /// The file holds an animation frame that the decoder cannot be trusted with.
    Animation,
    /// The file holds a compressed stream that the decoder cannot be trusted
    /// with.
    Stream,
    /// The file has 16-bit samples.
    SixteenBit,
    /// The decoder returned samples of an unknown kind.
    Unsupported,
    /// The decoder reported no dimensions.
    NoDimensions,
    /// A side of the image is not positive.
    InvalidDimensions { w: i32, h: i32 },
    /// The image is neither RGB nor RGBA.
    Colorspace,
    /// A side of the image is longer than a surface may be.
    TooLarge,
}

/// What `PngDecoder::decode` of `zune-png` makes of the bytes of a file, or
/// nothing where it returns an error.
pub uninterp spec fn png_decoded(bytes: Seq<u8>) -> Option<SampleView>;

/// What `PngDecoder::get_colorspace` of `zune-png` returns once the file is
/// decoded.
pub uninterp spec fn png_colors(bytes: Seq<u8>) -> Option<PngColors>;

/// The width and height that the first chunk of a file gives.
pub open spec fn stated_size(bytes: Seq<u8>) -> (usize, usize) {
    (chunks::be32(bytes, 16) as usize, chunks::be32(bytes, 20) as usize)
}

/// There is exactly one sample of eight bits for every channel of every pixel of
/// an RGB or RGBA image of this size.
pub open spec fn sampled(
    samples: SampleView,
    size: (usize, usize),
    colors: Option<PngColors>,
) -> bool {
    match (samples, colors) {
        (SampleView::Eight(s), Some(PngColors::Rgb)) => s.len() == size.0 * size.1 * 3,
        (SampleView::Eight(s), Some(PngColors::Rgba)) => s.len() == size.0 * size.1 * 4,
        _ => true,
    }
}

/// Decodes a PNG file with `PngDecoder::decode` of `zune-png`, and asks the
/// decoder with `get_dimensions` and `get_colorspace` for the image's dimensions
/// and colour space.
///
/// Claimed without proof: the samples and the colour space depend on the bytes
/// alone. Of a file that was decoded, there is a colour space, the dimensions are
/// those in the file's first chunk, and an RGB or RGBA image of eight bits has all
/// of its samples and no more. The decoder does not panic on the files that the
/// precondition admits. It can panic on the others: it does not expect the
/// image's own frame in a size that does not fit, nor a frame without its sequence
/// number, and its inflater takes more bits than it has from some compressed
/// streams.
#[verifier::external_body]
fn decode_png(bytes: &[u8]) -> (r: Result<PngPixels, zune_png::error::PngDecodeErrors>)
    requires
        chunks::hazard(bytes@) is None,
    ensures
        match r {
            Ok(p) => {
                &&& png_decoded(bytes@) == Some(p.samples@)
                &&& png_colors(bytes@) == p.colors
                &&& p.colors is Some
                &&& p.dimensions == Some(stated_size(bytes@))
                &&& sampled(p.samples@, stated_size(bytes@), p.colors)
            },
            Err(_) => png_decoded(bytes@) is None,
        },
{
    let mut decoder = zune_png::PngDecoder::new(bytes);
    let samples = match decoder.decode()? {
        zune_png::zune_core::result::DecodingResult::U8(v) => PngSamples::Eight(v),
        zune_png::zune_core::result::DecodingResult::U16(_) => PngSamples::Sixteen,
        _ => PngSamples::Other,
    };
    let colors = decoder.get_colorspace().map(|c| match c {
        zune_png::zune_core::colorspace::ColorSpace::RGB => PngColors::Rgb,
        zune_png::zune_core::colorspace::ColorSpace::RGBA => PngColors::Rgba,
        _ => PngColors::Other,
    });
    Ok(PngPixels { samples, dimensions: decoder.get_dimensions(), colors })
}

/// The signed 32-bit number with the same low bits.
pub open spec fn low_i32(a: int) -> int {
    let m = a % 0x1_0000_0000;
    if m < 0x8000_0000 {
        m
    } else {
        m - 0x1_0000_0000
    }
}

fn to_i32(a: usize) -> (r: i32)
    ensures
        r == low_i32(a as int),
{
    let m: u64 = a as u64 % 0x1_0000_0000;
    if m < 0x8000_0000 {
        m as i32
    } else {
        (m as i64 - 0x1_0000_0000) as i32
    }
}

/// A colour sample scaled by an alpha sample.
pub open spec fn premultiplied(c: u8, a: u8) -> int {
    (c * a) / 255
}

/// The image pixel for the `i`-th pixel of a sample buffer. RGB pixels are
/// opaque; RGBA pixels are premultiplied.
pub open spec fn converted(samples: Seq<u8>, colors: PngColors, i: int) -> Bgra {
    if colors is Rgb {
        (samples[3 * i + 2], samples[3 * i + 1], samples[3 * i], 255)
    } else {
        let a = samples[4 * i + 3];
        (
            premultiplied(samples[4 * i + 2], a) as u8,
            premultiplied(samples[4 * i + 1], a) as u8,
            premultiplied(samples[4 * i], a) as u8,
            a,
        )
    }
}

/// Samples to the pixel.
pub open spec fn channels(colors: PngColors) -> int {
    if colors is Rgb {
        3
    } else {
        4
    }
}

/// The colour space, taken as RGBA where the decoder reports none.
pub open spec fn effective_colors(colors: Option<PngColors>) -> PngColors {
    match colors {
        Some(c) => c,
        None => PngColors::Rgba,
    }
}

/// The first objection to a decoded file, if there is one.
pub open spec fn objection(
    samples: SampleView,
    dimensions: Option<(usize, usize)>,
    colors: Option<PngColors>,
) -> Option<PngError> {
    if samples is Sixteen {
        Some(PngError::SixteenBit)
    } else if samples is Other {
        Some(PngError::Unsupported)
    } else {
        match dimensions {
            None => Some(PngError::NoDimensions),
            Some((uw, uh)) => {
                let w = low_i32(uw as int);
                let h = low_i32(uh as int);
                if w <= 0 || h <= 0 {
                    Some(PngError::InvalidDimensions { w: w as i32, h: h as i32 })
                } else if effective_colors(colors) is Other {
                    Some(PngError::Colorspace)
                } else if w > MAX_SIDE || h > MAX_SIDE {
                    Some(PngError::TooLarge)
                } else {
                    None
                }
            },
        }
    }
}

/// There is a sample for every channel of every pixel.
pub open spec fn complete(
    samples: SampleView,
    dimensions: Option<(usize, usize)>,
    colors: Option<PngColors>,
) -> bool {
    dimensions matches Some((uw, uh)) && samples matches SampleView::Eight(s) && s.len() >= low_i32(
        uw as int,
    ) * low_i32(uh as int) * channels(effective_colors(colors))
}

/// `img` shows the decoded file: it has its size, and every pixel is the
/// converted one.
pub open spec fn shows(
    img: Argb32Image,
    samples: SampleView,
    dimensions: Option<(usize, usize)>,
    colors: Option<PngColors>,
) -> bool {
    dimensions matches Some((uw, uh)) && samples matches SampleView::Eight(s) && {
        &&& img.spec_width() == low_i32(uw as int)
        &&& img.spec_height() == low_i32(uh as int)
        &&& forall|x: int, y: int|
            0 <= x < img.spec_width() && 0 <= y < img.spec_height() ==> #[trigger] img.pixel(x, y)
                == converted(s, effective_colors(colors), y * img.spec_width() + x)
    }
}

fn premultiply(c: u8, a: u8) -> (r: u8)
    ensures
        r == premultiplied(c, a),
{
    assert(0 <= c * a <= 255 * 255) by (nonlinear_arith)
        requires
            0 <= c <= 255,
            0 <= a <= 255,
    ;
    ((c as u32 * a as u32) / 255) as u8
}

/// Converts `n` pixels.
fn convert_pixels(samples: &Vec<u8>, colors: PngColors, n: usize) -> (r: Vec<u8>)
    requires
        !(colors is Other),
        n <= 0x3FFF_0001,
        samples@.len() >= n * channels(colors),
    ensures
        r@.len() == 4 * n,
        forall|i: int|
            0 <= i < n ==> #[trigger] image::pixel_at(r@, 4 * i) == converted(samples@, colors, i),
{
    let mut out: Vec<u8> = Vec::new();
    let mut i: usize = 0;
    while i < n
        invariant
            !(colors is Other),
            i <= n <= 0x3FFF_0001,
            samples@.len() >= n * channels(colors),
            out@.len() == 4 * i,
            forall|j: int|
                0 <= j < i ==> #[trigger] image::pixel_at(out@, 4 * j) == converted(
                    samples@,
                    colors,
                    j,
                ),
        decreases n - i,
    {
        let ghost before = out@;
        if colors == PngColors::Rgb {
            out.push(samples[i * 3 + 2]);
            out.push(samples[i * 3 + 1]);
            out.push(samples[i * 3]);
            out.push(255);
        } else {
            let a: u8 = samples[i * 4 + 3];
            out.push(premultiply(samples[i * 4 + 2], a));
            out.push(premultiply(samples[i * 4 + 1], a));
            out.push(premultiply(samples[i * 4], a));
            out.push(a);
        }
        assert forall|j: int| 0 <= j < i + 1 implies #[trigger] image::pixel_at(out@, 4 * j)
            == converted(samples@, colors, j) by {
            if j < i {
                assert(image::pixel_at(before, 4 * j) == converted(samples@, colors, j));
            }
        }
        i = i + 1;
    }
    out
}

/// Builds the image from what the decoder found.
pub fn surface_from_png(p: PngPixels) -> (r: Result<Argb32Image, PngError>)
    requires
        objection(p.samples@, p.dimensions, p.colors) is None ==> complete(
            p.samples@,
            p.dimensions,
            p.colors,
        ),
    ensures
        match r {
            Ok(img) => objection(p.samples@, p.dimensions, p.colors) is None && shows(
                img,
                p.samples@,
                p.dimensions,
                p.colors,
            ),
            Err(e) => objection(p.samples@, p.dimensions, p.colors) == Some(e),
        },
{
    let raw: Vec<u8> = match p.samples {
        PngSamples::Eight(v) => v,
        PngSamples::Sixteen => {
            return Err(PngError::SixteenBit);
        },
        PngSamples::Other => {
            return Err(PngError::Unsupported);
        },
    };
    let (uw, uh): (usize, usize) = match p.dimensions {
        Some(d) => d,
        None => {
            return Err(PngError::NoDimensions);
        },
    };
    let w: i32 = to_i32(uw);
    let h: i32 = to_i32(uh);
    if w <= 0 || h <= 0 {
        return Err(PngError::InvalidDimensions { w, h });
    }
    let colors: PngColors = match p.colors {
        Some(c) => c,
        None => PngColors::Rgba,
    };
    if colors == PngColors::Other {
        return Err(PngError::Colorspace);
    }
    if w > MAX_SIDE || h > MAX_SIDE {
        return Err(PngError::TooLarge);
    }
    proof {
        image::lemma_image_bytes(w as int, h as int);
    }
    let n: usize = w as usize * h as usize;
    let data: Vec<u8> = convert_pixels(&raw, colors, n);
    let img: Argb32Image = Argb32Image::from_bytes(w, h, data);
    proof {
        assert forall|x: int, y: int|
            0 <= x < img.spec_width() && 0 <= y < img.spec_height() implies #[trigger] img.pixel(
            x,
            y,
        ) == converted(raw@, colors, y * img.spec_width() + x) by {
            image::lemma_pixel_start(w as int, h as int, x, y, x, y);
            let i = y * w + x;
            assert(image::pixel_at(data@, 4 * i) == converted(raw@, colors, i));
        }
    }
    Ok(img)
}

/// Decodes the bytes of a PNG file into a premultiplied image.
pub fn png_bytes_to_surface(bytes: &[u8]) -> (r: Result<Argb32Image, PngError>)
    ensures
        match r {
            Ok(img) => {
                &&& chunks::hazard(bytes@) is None
                &&& png_decoded(bytes@) matches Some(s) && objection(
                    s,
                    Some(stated_size(bytes@)),
                    png_colors(bytes@),
                ) is None && shows(img, s, Some(stated_size(bytes@)), png_colors(bytes@))
            },
            Err(PngError::Animation) => chunks::hazard(bytes@) == Some(Hazard::Frame),
            Err(PngError::Stream) => chunks::hazard(bytes@) == Some(Hazard::Stream),
            Err(PngError::Decode) => chunks::hazard(bytes@) is None && png_decoded(bytes@) is None,
            Err(e) => {
                &&& chunks::hazard(bytes@) is None
                &&& png_decoded(bytes@) matches Some(s) && objection(
                    s,
                    Some(stated_size(bytes@)),
                    png_colors(bytes@),
                ) == Some(e)
            },
        },
{
    match find_hazard(bytes) {
        Some(Hazard::Frame) => {
            return Err(PngError::Animation);
        },
        Some(Hazard::Stream) => {
            return Err(PngError::Stream);
        },
        None => {},
    }
    let p: PngPixels = match decode_png(bytes) {
        Ok(p) => p,
        Err(_) => {
            return Err(PngError::Decode);
        },
    };
    proof {
        if objection(p.samples@, p.dimensions, p.colors) is None {
            lemma_complete(p, bytes@);
        }
    }
    surface_from_png(p)
}

/// What the decoder hands out has a sample for every channel of every pixel.
proof fn lemma_complete(p: PngPixels, bytes: Seq<u8>)
    requires
        p.dimensions == Some(stated_size(bytes)),
        p.colors is Some,
        sampled(p.samples@, stated_size(bytes), p.colors),
        objection(p.samples@, p.dimensions, p.colors) is None,
    ensures
        complete(p.samples@, p.dimensions, p.colors),
{
}

/// Opaque pixels keep their colours, whatever the channels: expanding RGB and
/// premultiplying RGBA with full alpha agree.
pub proof fn law_opaque_is_unchanged(samples: Seq<u8>, i: int)
    requires
        samples[4 * i + 3] == 255,
    ensures
        converted(samples, PngColors::Rgba, i) == (
            samples[4 * i + 2],
            samples[4 * i + 1],
            samples[4 * i],
            255u8,
        ),
{
    assert((samples[4 * i + 2] * 255) / 255 == samples[4 * i + 2]);
    assert((samples[4 * i + 1] * 255) / 255 == samples[4 * i + 1]);
    assert((samples[4 * i] * 255) / 255 == samples[4 * i]);
}

/// Converted pixels are validly premultiplied: no colour exceeds the alpha, and
/// a transparent pixel is black.
pub proof fn law_premultiplied(samples: Seq<u8>, colors: PngColors, i: int)
    ensures
        ({
            let (b, g, r, a) = converted(samples, colors, i);
            &&& b <= a && g <= a && r <= a
            &&& a == 0 ==> b == 0 && g == 0 && r == 0
        }),
{
    if !(colors is Rgb) {
        let a = samples[4 * i + 3];
        lemma_scaled(samples[4 * i + 2], a);
        lemma_scaled(samples[4 * i + 1], a);
        lemma_scaled(samples[4 * i], a);
    }
}

proof fn lemma_scaled(c: u8, a: u8)
    ensures
        0 <= premultiplied(c, a) <= a,
{
    assert(0 <= c * a <= 255 * a) by (nonlinear_arith)
        requires
            0 <= c <= 255,
            0 <= a,
    ;
}

/// A premultiplied sample is the share of the colour that the alpha stands for,
/// rounded down: as many 255ths of it as the alpha has.
pub proof fn law_premultiplication(c: u8, a: u8)
    ensures
        255 * premultiplied(c, a) <= c * a,
        c * a < 255 * premultiplied(c, a) + 255,
{
}

/// Pixel by pixel, row by row, red, green and blue become blue, green and red.
/// Three samples make an opaque pixel; of four, the last is the alpha, and the
/// others are multiplied by it.
pub proof fn law_pixels_come_from_their_samples(samples: Seq<u8>, i: int)
    requires
        0 <= i,
    ensures
        ({
            let (b, g, r, a) = converted(samples, PngColors::Rgb, i);
            &&& r == samples[3 * i]
            &&& g == samples[3 * i + 1]
            &&& b == samples[3 * i + 2]
            &&& a == 255
        }),
        ({
            let (b, g, r, a) = converted(samples, PngColors::Rgba, i);
            let alpha = samples[4 * i + 3];
            &&& a == alpha
            &&& 255 * r <= samples[4 * i] * alpha < 255 * r + 255
            &&& 255 * g <= samples[4 * i + 1] * alpha < 255 * g + 255
            &&& 255 * b <= samples[4 * i + 2] * alpha < 255 * b + 255
        }),
        channels(PngColors::Rgb) == 3,
        channels(PngColors::Rgba) == 4,
{
    let a = samples[4 * i + 3];
    lemma_scaled(samples[4 * i], a);
    lemma_scaled(samples[4 * i + 1], a);
    lemma_scaled(samples[4 * i + 2], a);
}

/// An image shows a decoded file if it has the file's size and each of its pixels
/// comes from that pixel's own samples, counted row by row.
pub proof fn law_image_shows_file(
    img: Argb32Image,
    s: Seq<u8>,
    w: usize,
    h: usize,
    colors: PngColors,
    x: int,
    y: int,
)
    requires
        shows(img, SampleView::Eight(s), Some((w, h)), Some(colors)),
        0 < w <= MAX_SIDE,
        0 < h <= MAX_SIDE,
        0 <= x < w,
        0 <= y < h,
    ensures
        img.spec_width() == w,
        img.spec_height() == h,
        img.pixel(x, y) == converted(s, colors, w * y + x),
{
    assert(y * w == w * y) by (nonlinear_arith);
}

/// What a file is refused for, in this order: deep or unknown samples, no
/// dimensions, a side that is not positive, colours other than RGB and RGBA, a side
/// that is too long. A file without any of these is accepted, and colours that are
/// not told are taken as RGBA.
pub proof fn law_objections(
    samples: SampleView,
    dimensions: Option<(usize, usize)>,
    colors: Option<PngColors>,
)
    ensures
        ({
            let o = objection(samples, dimensions, colors);
            &&& samples is Sixteen ==> o == Some(PngError::SixteenBit)
            &&& samples is Other ==> o == Some(PngError::Unsupported)
            &&& samples is Eight && dimensions is None ==> o == Some(PngError::NoDimensions)
            &&& samples is Eight ==> (dimensions matches Some((w, h)) ==> {
                &&& w == 0 || h == 0 ==> (o matches Some(PngError::InvalidDimensions { .. }))
                &&& 0 < w < 0x8000_0000 && 0 < h < 0x8000_0000 && colors == Some(PngColors::Other)
                    ==> o == Some(PngError::Colorspace)
                &&& 0 < w < 0x8000_0000 && 0 < h < 0x8000_0000 && colors != Some(PngColors::Other)
                    && (w > 32767 || h > 32767) ==> o == Some(PngError::TooLarge)
                &&& 0 < w <= 32767 && 0 < h <= 32767 && colors != Some(PngColors::Other) ==> o
                    is None
            })
        }),
        effective_colors(None) == PngColors::Rgba,
        forall|c: PngColors| #[trigger] effective_colors(Some(c)) == c,
{
}

/// A file's size stands in the eight bytes from the seventeenth on, the highest
/// byte of each number first.
pub proof fn law_stated_size(bytes: Seq<u8>)
    ensures
        stated_size(bytes).0 == bytes[16] * 16777216 + bytes[17] * 65536 + bytes[18] * 256
            + bytes[19],
        stated_size(bytes).1 == bytes[20] * 16777216 + bytes[21] * 65536 + bytes[22] * 256
            + bytes[23],
{
}

/// A pixel of an RGB image has three samples and one of an RGBA image four, and
/// there are no more than those of the pixels.
pub proof fn law_sample_count(s: Seq<u8>, w: usize, h: usize)
    ensures
        sampled(SampleView::Eight(s), (w, h), Some(PngColors::Rgb)) <==> s.len() == 3 * (w * h),
        sampled(SampleView::Eight(s), (w, h), Some(PngColors::Rgba)) <==> s.len() == 4 * (w * h),
{
    assert(w * h * 3 == 3 * (w * h) && w * h * 4 == 4 * (w * h)) by (nonlinear_arith);
}

/// A number of 31 bits stays as it is, and others keep their low bits.
pub proof fn law_low_bits(a: int)
    ensures
        0 <= a < 0x8000_0000 ==> low_i32(a) == a,
        -0x8000_0000 <= low_i32(a) < 0x8000_0000,
        (a - low_i32(a)) % 0x1_0000_0000 == 0,
{
}

/// A decoded file is complete if there are samples enough for all of its pixels.
pub proof fn law_complete(s: Seq<u8>, w: usize, h: usize, colors: Option<PngColors>)
    requires
        0 < w <= MAX_SIDE,
        0 < h <= MAX_SIDE,
    ensures
        complete(SampleView::Eight(s), Some((w, h)), colors) <==> s.len() >= w * h * channels(
            effective_colors(colors),
        ),
        !complete(SampleView::Eight(s), None, colors),
        !complete(SampleView::Sixteen, Some((w, h)), colors),
        !complete(SampleView::Other, Some((w, h)), colors),
{
}

} // verus!
