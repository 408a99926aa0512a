//! Frames from a screen cast: which streams to use, which frames to keep, and
//! how the monitors' frames become one image of the whole desktop.

use crate::image::{self, Argb32Image, Bgra, MAX_SIDE};
use std::collections::HashMap;
use vstd::prelude::*;

verus! {

/// One monitor's stream: its node and its place on the desktop, in pixels.
pub struct StreamInfo {
    node_id: u32,
    x: i32,
    y: i32,
    w: i32,
    h: i32,
}

impl StreamInfo {
    #[verifier::type_invariant]
    pub closed spec fn well_formed(self) -> bool {
        self.w > 0 && self.h > 0
    }

    /// The node that delivers the frames.
    pub closed spec fn node(self) -> u32 {
        self.node_id
    }

    /// The left edge on the desktop.
    pub closed spec fn left(self) -> int {
        self.x as int
    }

    /// The upper edge on the desktop.
    pub closed spec fn top(self) -> int {
        self.y as int
    }

    /// The width in pixels.
    pub closed spec fn width(self) -> int {
        self.w as int
    }

    /// The height in pixels.
    pub closed spec fn height(self) -> int {
        self.h as int
    }

    /// Describes a stream. One without a position lies at the origin; one
    /// without a positive size is of no use.
    pub fn new(node_id: u32, position: Option<(i32, i32)>, size: Option<(i32, i32)>) -> (r: Option<
        StreamInfo,
    >)
        ensures
            r is Some <==> (size matches Some((w, h)) && w > 0 && h > 0),
            r matches Some(s) ==> s.describes(StreamReport { node_id, position, size }),
    {
        let (x, y): (i32, i32) = match position {
            Some(p) => p,
            None => (0, 0),
        };
        let (w, h): (i32, i32) = match size {
            Some(s) => s,
            None => (0, 0),
        };
        if w > 0 && h > 0 {
            Some(StreamInfo { node_id, x, y, w, h })
        } else {
            None
        }
    }

    /// The node that delivers the frames.
    pub fn node_id(&self) -> (r: u32)
        ensures
            r == self.node(),
    {
        self.node_id
    }

    /// The stream is the one that the portal reported.
    pub open spec fn describes(self, report: StreamReport) -> bool {
        &&& self.node() == report.node_id
        &&& (self.left(), self.top()) == (match report.position {
            Some((x, y)) => (x as int, y as int),
            None => (0, 0),
        })
        &&& report.size matches Some((w, h)) && self.width() == w && self.height() == h
    }
}

/// A stream as the portal reports it.
#[derive(Debug, Clone, Copy)]
pub struct StreamReport {
    pub node_id: u32,
    pub position: Option<(i32, i32)>,
    pub size: Option<(i32, i32)>,
}

impl StreamReport {
    /// The stream has a positive size.
    pub open spec fn usable(self) -> bool {
        self.size matches Some((w, h)) && w > 0 && h > 0
    }
}

/// How the bytes of a pixel are arranged: blue, green and red, and alpha or an
/// unused byte.
#[derive(Debug, Clone, Copy, PartialEq, Eq, Structural)]
pub enum PixelFormat {
    Bgra,
    Bgrx,
}

/// The formats that frames are asked for in, the first one preferred. Stitching
/// takes the bytes of both alike.
pub fn offered_formats() -> (r: Vec<PixelFormat>)
    ensures
        r@ == seq![PixelFormat::Bgra, PixelFormat::Bgrx],
{
    let r: Vec<PixelFormat> = vec![PixelFormat::Bgra, PixelFormat::Bgrx];
    assert(r@ =~= seq![PixelFormat::Bgra, PixelFormat::Bgrx]);
    r
}

/// Whether the portal is asked for several sources at once. GNOME does not
/// connect the streams of a session with several.
pub const SEVERAL_SOURCES: bool = false;

/// The portal offered no stream that could be captured.
#[derive(Debug, Clone, Copy, PartialEq, Eq, Structural)]
pub struct NoUsableStreams;

/// The reports of the streams that can be captured, in their order.
pub open spec fn usable(reports: Seq<StreamReport>) -> Seq<StreamReport> {
    reports.filter(|r: StreamReport| r.usable())
}

/// Keeps the streams that can be captured.
pub fn usable_streams(reports: &[StreamReport]) -> (r: Result<Vec<StreamInfo>, NoUsableStreams>)
    ensures
        r is Err <==> usable(reports@).len() == 0,
        r matches Ok(v) ==> v@.len() == usable(reports@).len() && forall|i: int|
            0 <= i < v@.len() ==> (#[trigger] v@[i]).describes(usable(reports@)[i]),
{
    let mut out: Vec<StreamInfo> = Vec::new();
    let mut i: usize = 0;
    assert(reports@.take(0) =~= Seq::empty());
    reveal(Seq::filter);
    while i < reports.len()
        invariant
            i <= reports@.len(),
            out@.len() == usable(reports@.take(i as int)).len(),
            forall|j: int|
                0 <= j < out@.len() ==> (#[trigger] out@[j]).describes(
                    usable(reports@.take(i as int))[j],
                ),
        decreases reports@.len() - i,
    {
        let report: StreamReport = reports[i];
        proof {
            assert(reports@.take(i + 1).drop_last() =~= reports@.take(i as int));
            reveal(Seq::filter);
        }
        match StreamInfo::new(report.node_id, report.position, report.size) {
            Some(s) => {
                out.push(s);
            },
            None => {},
        }
        i = i + 1;
    }
    assert(reports@.take(i as int) =~= reports@);
    if out.len() == 0 {
        Err(NoUsableStreams)
    } else {
        Ok(out)
    }
}

/// A captured frame: blue, green, red and one unused byte to the pixel.
pub struct Frame {
    stride: usize,
    w: i32,
    h: i32,
    data: Vec<u8>,
}

impl Frame {
    #[verifier::type_invariant]
    pub closed spec fn well_formed(self) -> bool {
        self.w > 0 && self.h > 0
    }

    /// The number of bytes from one row to the next.
    pub closed spec fn row_bytes(self) -> int {
        self.stride as int
    }

    /// The width in pixels.
    pub closed spec fn width(self) -> int {
        self.w as int
    }

    /// The height in pixels.
    pub closed spec fn height(self) -> int {
        self.h as int
    }

    /// The captured bytes.
    pub closed spec fn bytes(self) -> Seq<u8> {
        self.data@
    }

    /// A frame of a stream: it has the stream's size.
    pub fn new(stream: &StreamInfo, stride: usize, data: Vec<u8>) -> (r: Frame)
        ensures
            r.row_bytes() == stride,
            r.width() == stream.width(),
            r.height() == stream.height(),
            r.bytes() == data@,
    {
        proof {
            use_type_invariant(stream);
        }
        Frame { stride, w: stream.w, h: stream.h, data }
    }
}

/// The streams of a capture and the frames that were grabbed from them.
pub struct CapturedRaw {
    pub streams: Vec<StreamInfo>,
    pub frames: HashMap<u32, Frame>,
}

/// Where row `y` and column `x` of a frame start.
pub open spec fn source_start(f: Frame, x: int, y: int) -> int {
    y * f.row_bytes() + 4 * x
}

/// The stream has a frame, and the frame holds a pixel for the desktop's
/// column `x` and row `y`.
pub open spec fn supplies(s: StreamInfo, frames: Map<u32, Frame>, x: int, y: int) -> bool {
    &&& frames.dom().contains(s.node())
    &&& s.left() <= x < s.left() + s.width()
    &&& s.top() <= y < s.top() + s.height()
    &&& ({
        let f = frames[s.node()];
        &&& x - s.left() < f.width()
        &&& y - s.top() < f.height()
        &&& source_start(f, x - s.left(), y - s.top()) + 3 < f.bytes().len()
    })
}

/// The opaque pixel that the stream supplies.
pub open spec fn supplied(s: StreamInfo, frames: Map<u32, Frame>, x: int, y: int) -> Bgra {
    let f = frames[s.node()];
    let p = source_start(f, x - s.left(), y - s.top());
    (f.bytes()[p], f.bytes()[p + 1], f.bytes()[p + 2], 0xFF)
}

/// The pixel in column `x` and row `y` of the stitched desktop: the last stream
/// that supplies it wins, and what none supplies is opaque black.
pub open spec fn stitched(
    streams: Seq<StreamInfo>,
    frames: Map<u32, Frame>,
    x: int,
    y: int,
) -> Bgra
    decreases streams.len(),
{
    if streams.len() == 0 {
        (0, 0, 0, 0xFF)
    } else if supplies(streams.last(), frames, x, y) {
        supplied(streams.last(), frames, x, y)
    } else {
        stitched(streams.drop_last(), frames, x, y)
    }
}

/// How far right the streams reach.
pub open spec fn canvas_width(streams: Seq<StreamInfo>) -> int
    decreases streams.len(),
{
    if streams.len() == 0 {
        0
    } else {
        let reach = streams.last().left() + streams.last().width();
        let rest = canvas_width(streams.drop_last());
        if rest <= reach {
            reach
        } else {
            rest
        }
    }
}

/// How far down the streams reach.
pub open spec fn canvas_height(streams: Seq<StreamInfo>) -> int
    decreases streams.len(),
{
    if streams.len() == 0 {
        0
    } else {
        let reach = streams.last().top() + streams.last().height();
        let rest = canvas_height(streams.drop_last());
        if rest <= reach {
            reach
        } else {
            rest
        }
    }
}

/// Why no desktop image could be stitched.
#[derive(Debug, Clone, Copy, PartialEq, Eq, Structural)]
pub enum StitchError {
    /// The desktop has no extent.
    InvalidSize { w: i32, h: i32 },
    /// The desktop is larger than a surface may be.
    TooLarge { w: i32, h: i32 },
}

/// The objection to a desktop of this size, if there is one.
pub open spec fn size_objection(w: int, h: int) -> Option<StitchError> {
    if w <= 0 || h <= 0 {
        Some(StitchError::InvalidSize { w: w as i32, h: h as i32 })
    } else if w > MAX_SIDE || h > MAX_SIDE {
        Some(StitchError::TooLarge { w: w as i32, h: h as i32 })
    } else {
        None
    }
}

/// The right and lower edges of all streams are representable.
pub open spec fn edges_fit(streams: Seq<StreamInfo>) -> bool {
    forall|i: int|
        0 <= i < streams.len() ==> {
            &&& (#[trigger] streams[i]).left() + streams[i].width() <= i32::MAX
            &&& streams[i].top() + streams[i].height() <= i32::MAX
        }
}

/// No stream that has a frame lies left of or above the desktop's origin.
pub open spec fn frames_on_canvas(streams: Seq<StreamInfo>, frames: Map<u32, Frame>) -> bool {
    forall|i: int|
        0 <= i < streams.len() && frames.dom().contains((#[trigger] streams[i]).node()) ==> {
            &&& streams[i].left() >= 0
            &&& streams[i].top() >= 0
        }
}

impl CapturedRaw {
    /// The streams' coordinates can be stitched without leaving the number
    /// range or the canvas.
    pub open spec fn placeable(self) -> bool {
        &&& edges_fit(self.streams@)
        &&& size_objection(
            canvas_width(self.streams@),
            canvas_height(self.streams@),
        ) is None ==> frames_on_canvas(self.streams@, self.frames@)
    }

    /// The pixel in column `x` and row `y` of the desktop.
    pub open spec fn desktop_pixel(self, x: int, y: int) -> Bgra {
        stitched(self.streams@, self.frames@, x, y)
    }
}

/// The extent of the streams is at least that of each of them.
proof fn lemma_canvas_covers(streams: Seq<StreamInfo>, i: int)
    requires
        0 <= i < streams.len(),
    ensures
        streams[i].left() + streams[i].width() <= canvas_width(streams),
        streams[i].top() + streams[i].height() <= canvas_height(streams),
    decreases streams.len(),
{
    if i < streams.len() - 1 {
        lemma_canvas_covers(streams.drop_last(), i);
    }
}

/// Measures the desktop.
fn canvas_size(streams: &Vec<StreamInfo>) -> (r: (i32, i32))
    requires
        edges_fit(streams@),
    ensures
        r.0 == canvas_width(streams@),
        r.1 == canvas_height(streams@),
        r.0 >= 0,
        r.1 >= 0,
{
    let mut w: i32 = 0;
    let mut h: i32 = 0;
    let mut i: usize = 0;
    assert(streams@.take(0) =~= Seq::empty());
    while i < streams.len()
        invariant
            edges_fit(streams@),
            i <= streams@.len(),
            w == canvas_width(streams@.take(i as int)),
            h == canvas_height(streams@.take(i as int)),
            w >= 0,
            h >= 0,
        decreases streams@.len() - i,
    {
        let s: &StreamInfo = &streams[i];
        proof {
            use_type_invariant(s);
            assert(streams@.take(i + 1).drop_last() =~= streams@.take(i as int));
            assert(streams@.take(i + 1).last() == streams@[i as int]);
        }
        let right: i32 = s.x + s.w;
        let bottom: i32 = s.y + s.h;
        if w <= right {
            w = right;
        }
        if h <= bottom {
            h = bottom;
        }
        i = i + 1;
    }
    assert(streams@.take(i as int) =~= streams@);
    (w, h)
}

/// Tests whether the capture can be stitched.
pub fn can_stitch(captured: &CapturedRaw) -> (r: bool)
    ensures
        r == captured.placeable(),
{
    broadcast use vstd::std_specs::hash::group_hash_axioms;

    let mut i: usize = 0;
    while i < captured.streams.len()
        invariant
            i <= captured.streams@.len(),
            forall|j: int|
                0 <= j < i ==> {
                    &&& (#[trigger] captured.streams@[j]).left() + captured.streams@[j].width()
                        <= i32::MAX
                    &&& captured.streams@[j].top() + captured.streams@[j].height() <= i32::MAX
                },
        decreases captured.streams@.len() - i,
    {
        let s: &StreamInfo = &captured.streams[i];
        assert(*s == captured.streams@[i as int]);
        if s.x as i64 + s.w as i64 > 0x7FFF_FFFF || s.y as i64 + s.h as i64 > 0x7FFF_FFFF {
            return false;
        }
        i = i + 1;
    }
    let (w, h): (i32, i32) = canvas_size(&captured.streams);
    if w <= 0 || h <= 0 || w > MAX_SIDE || h > MAX_SIDE {
        return true;
    }
    let mut k: usize = 0;
    while k < captured.streams.len()
        invariant
            k <= captured.streams@.len(),
            w == canvas_width(captured.streams@),
            h == canvas_height(captured.streams@),
            0 < w <= MAX_SIDE,
            0 < h <= MAX_SIDE,
            edges_fit(captured.streams@),
            forall|j: int|
                0 <= j < k && captured.frames@.dom().contains(
                    (#[trigger] captured.streams@[j]).node(),
                ) ==> captured.streams@[j].left() >= 0 && captured.streams@[j].top() >= 0,
        decreases captured.streams@.len() - k,
    {
        let s: &StreamInfo = &captured.streams[k];
        assert(*s == captured.streams@[k as int]);
        if captured.frames.contains_key(&s.node_id) && (s.x < 0 || s.y < 0) {
            return false;
        }
        k = k + 1;
    }
    true
}

/// A canvas whose pixels are given by a function.
spec fn filled(data: Seq<u8>, w: int, h: int, f: spec_fn(int, int) -> Bgra) -> bool {
    &&& data.len() == 4 * (w * h)
    &&& forall|x: int, y: int|
        0 <= x < w && 0 <= y < h ==> #[trigger] image::pixel_at(data, image::pixel_start(w, x, y))
            == f(x, y)
}

/// The canvas pixels come before column `x` of row `y` in reading order.
spec fn earlier(px: int, py: int, x: int, y: int) -> bool {
    py < y || (py == y && px < x)
}

/// The canvas after the streams `done` and, of the stream `s`, the pixels
/// before column `x` of row `y`.
spec fn partly(
    done: Seq<StreamInfo>,
    s: StreamInfo,
    frames: Map<u32, Frame>,
    x: int,
    y: int,
) -> spec_fn(int, int) -> Bgra {
    |px: int, py: int|
        if earlier(px, py, x, y) {
            stitched(done.push(s), frames, px, py)
        } else {
            stitched(done, frames, px, py)
        }
}

/// Writes one opaque pixel.
fn put_pixel(data: &mut Vec<u8>, w: i32, h: i32, x: i32, y: i32, b: u8, g: u8, r: u8)
    requires
        0 <= x < w <= MAX_SIDE,
        0 <= y < h <= MAX_SIDE,
        old(data)@.len() == 4 * (w * h),
    ensures
        final(data)@.len() == 4 * (w * h),
        image::pixel_at(final(data)@, image::pixel_start(w as int, x as int, y as int)) == (
            b,
            g,
            r,
            0xFFu8,
        ),
        forall|x2: int, y2: int|
            0 <= x2 < w && 0 <= y2 < h && (x2, y2) != (x as int, y as int)
                ==> #[trigger] image::pixel_at(
                final(data)@,
                image::pixel_start(w as int, x2, y2),
            ) == image::pixel_at(old(data)@, image::pixel_start(w as int, x2, y2)),
{
    proof {
        image::lemma_image_bytes(w as int, h as int);
        image::lemma_pixel_start(w as int, h as int, x as int, y as int, x as int, y as int);
        assert(0 <= y * w <= w * h) by (nonlinear_arith)
            requires
                0 <= y < h,
                0 < w,
        ;
    }
    let d: usize = (y as usize * w as usize + x as usize) * 4;
    let ghost before = data@;
    data.set(d, b);
    data.set(d + 1, g);
    data.set(d + 2, r);
    data.set(d + 3, 0xFF);
    proof {
        assert forall|x2: int, y2: int|
            0 <= x2 < w && 0 <= y2 < h && (x2, y2) != (
                x as int,
                y as int,
            ) implies #[trigger] image::pixel_at(data@, image::pixel_start(w as int, x2, y2))
            == image::pixel_at(before, image::pixel_start(w as int, x2, y2)) by {
            image::lemma_pixel_start(w as int, h as int, x as int, y as int, x2, y2);
            image::lemma_pixel_start(w as int, h as int, x2, y2, x as int, y as int);
        }
    }
}

/// Copies the frame of one stream onto the canvas.
fn blit(
    data: &mut Vec<u8>,
    cw: i32,
    ch: i32,
    s: &StreamInfo,
    f: &Frame,
    Ghost(done): Ghost<Seq<StreamInfo>>,
    Ghost(frames): Ghost<Map<u32, Frame>>,
)
    requires
        0 < cw <= MAX_SIDE,
        0 < ch <= MAX_SIDE,
        s.left() >= 0,
        s.top() >= 0,
        s.left() + s.width() <= cw,
        s.top() + s.height() <= ch,
        frames.dom().contains(s.node()),
        frames[s.node()] == *f,
        filled(old(data)@, cw as int, ch as int, |x: int, y: int| stitched(done, frames, x, y)),
    ensures
        filled(
            final(data)@,
            cw as int,
            ch as int,
            |x: int, y: int| stitched(done.push(*s), frames, x, y),
        ),
{
    proof {
        use_type_invariant(s);
        use_type_invariant(f);
    }
    let w: i32 = if s.w <= f.w {
        s.w
    } else {
        f.w
    };
    let h: i32 = if s.h <= f.h {
        s.h
    } else {
        f.h
    };
    let mut y: i32 = 0;
    proof {
        assert(done.push(*s).drop_last() =~= done);
        assert forall|px: int, py: int|
            0 <= px < cw && 0 <= py < ch implies #[trigger] image::pixel_at(
            data@,
            image::pixel_start(cw as int, px, py),
        ) == partly(done, *s, frames, 0, s.top())(px, py) by {
            let g = |x: int, y: int| stitched(done, frames, x, y);
            assert(image::pixel_at(data@, image::pixel_start(cw as int, px, py)) == g(px, py));
        }
    }
    while y < h
        invariant
            0 < cw <= MAX_SIDE,
            0 < ch <= MAX_SIDE,
            s.left() >= 0,
            s.top() >= 0,
            s.left() + s.width() <= cw,
            s.top() + s.height() <= ch,
            frames.dom().contains(s.node()),
            frames[s.node()] == *f,
            s.w > 0,
            s.h > 0,
            f.w > 0,
            f.h > 0,
            w == if s.w <= f.w { s.w } else { f.w },
            h == if s.h <= f.h { s.h } else { f.h },
            0 <= y <= h,
            done.push(*s).drop_last() == done,
            filled(data@, cw as int, ch as int, partly(done, *s, frames, 0, s.top() + y)),
        decreases h - y,
    {
        let mut x: i32 = 0;
        proof {
            assert forall|px: int, py: int|
                0 <= px < cw && 0 <= py < ch implies #[trigger] image::pixel_at(
                data@,
                image::pixel_start(cw as int, px, py),
            ) == partly(done, *s, frames, s.left(), s.top() + y)(px, py) by {
                assert(image::pixel_at(data@, image::pixel_start(cw as int, px, py)) == partly(
                    done,
                    *s,
                    frames,
                    0,
                    s.top() + y,
                )(px, py));
            }
        }
        while x < w
            invariant
                0 < cw <= MAX_SIDE,
                0 < ch <= MAX_SIDE,
                s.left() >= 0,
                s.top() >= 0,
                s.left() + s.width() <= cw,
                s.top() + s.height() <= ch,
                frames.dom().contains(s.node()),
                frames[s.node()] == *f,
                w == if s.w <= f.w { s.w } else { f.w },
                h == if s.h <= f.h { s.h } else { f.h },
                0 <= y < h,
                0 <= x <= w,
                done.push(*s).drop_last() == done,
                filled(
                    data@,
                    cw as int,
                    ch as int,
                    partly(done, *s, frames, s.left() + x, s.top() + y),
                ),
            decreases w - x,
        {
            let n: usize = f.data.len();
            let ghost before = data@;
            proof {
                assert(0 <= y * f.stride <= 0x7FFF_FFFF * 0xFFFF_FFFF_FFFF_FFFF)
                    by (nonlinear_arith)
                    requires
                        0 <= y <= 0x7FFF_FFFF,
                        0 <= f.stride <= 0xFFFF_FFFF_FFFF_FFFF,
                ;
            }
            let sp: u128 = y as u128 * f.stride as u128 + x as u128 * 4;
            let ghost gx = s.left() + x;
            let ghost gy = s.top() + y;
            assert(sp == source_start(*f, x as int, y as int));
            if sp + 3 < n as u128 {
                let p: usize = sp as usize;
                put_pixel(data, cw, ch, s.x + x, s.y + y, f.data[p], f.data[p + 1], f.data[p + 2]);
                assert(supplies(*s, frames, gx, gy));
            } else {
                assert(!supplies(*s, frames, gx, gy));
            }
            proof {
                assert forall|px: int, py: int|
                    0 <= px < cw && 0 <= py < ch implies #[trigger] image::pixel_at(
                    data@,
                    image::pixel_start(cw as int, px, py),
                ) == partly(done, *s, frames, s.left() + x + 1, s.top() + y)(px, py) by {
                    assert(image::pixel_at(before, image::pixel_start(cw as int, px, py))
                        == partly(done, *s, frames, s.left() + x, s.top() + y)(px, py));
                }
            }
            x = x + 1;
        }
        proof {
            assert forall|px: int, py: int|
                0 <= px < cw && 0 <= py < ch implies #[trigger] image::pixel_at(
                data@,
                image::pixel_start(cw as int, px, py),
            ) == partly(done, *s, frames, 0, s.top() + y + 1)(px, py) by {
                assert(image::pixel_at(data@, image::pixel_start(cw as int, px, py)) == partly(
                    done,
                    *s,
                    frames,
                    s.left() + w,
                    s.top() + y,
                )(px, py));
            }
        }
        y = y + 1;
    }
    proof {
        assert forall|px: int, py: int|
            0 <= px < cw && 0 <= py < ch implies #[trigger] image::pixel_at(
            data@,
            image::pixel_start(cw as int, px, py),
        ) == (|x: int, y: int| stitched(done.push(*s), frames, x, y))(px, py) by {
            assert(image::pixel_at(data@, image::pixel_start(cw as int, px, py)) == partly(
                done,
                *s,
                frames,
                0,
                s.top() + h,
            )(px, py));
        }
    }
}

/// Stitches the monitors' frames into one image of the desktop.
pub fn stitch(captured: CapturedRaw) -> (r: Result<Argb32Image, StitchError>)
    requires
        captured.placeable(),
    ensures
        match r {
            Ok(img) => {
                &&& size_objection(
                    canvas_width(captured.streams@),
                    canvas_height(captured.streams@),
                ) is None
                &&& img.spec_width() == canvas_width(captured.streams@)
                &&& img.spec_height() == canvas_height(captured.streams@)
                &&& forall|x: int, y: int|
                    0 <= x < img.spec_width() && 0 <= y < img.spec_height()
                        ==> #[trigger] img.pixel(x, y) == captured.desktop_pixel(x, y)
            },
            Err(e) => size_objection(
                canvas_width(captured.streams@),
                canvas_height(captured.streams@),
            ) == Some(e),
        },
{
    stitch_frames(&captured.streams, &captured.frames)
}

/// As many opaque black pixels.
fn black_canvas(n: usize) -> (r: Vec<u8>)
    requires
        n <= 0x3FFF_0001,
    ensures
        r@.len() == 4 * n,
        forall|i: int|
            0 <= i < n ==> #[trigger] image::pixel_at(r@, 4 * i) == (0u8, 0u8, 0u8, 0xFFu8),
{
    let mut r: Vec<u8> = Vec::new();
    let mut i: usize = 0;
    while i < n
        invariant
            i <= n <= 0x3FFF_0001,
            r@.len() == 4 * i,
            forall|j: int|
                0 <= j < i ==> #[trigger] image::pixel_at(r@, 4 * j) == (0u8, 0u8, 0u8, 0xFFu8),
        decreases n - i,
    {
        let ghost before = r@;
        r.push(0);
        r.push(0);
        r.push(0);
        r.push(0xFF);
        assert forall|j: int| 0 <= j < i + 1 implies #[trigger] image::pixel_at(r@, 4 * j) == (
            0u8,
            0u8,
            0u8,
            0xFFu8,
        ) by {
            if j < i {
                assert(image::pixel_at(before, 4 * j) == (0u8, 0u8, 0u8, 0xFFu8));
            }
        }
        i = i + 1;
    }
    r
}

fn stitch_frames(streams: &Vec<StreamInfo>, frames: &HashMap<u32, Frame>) -> (r: Result<
    Argb32Image,
    StitchError,
>)
    requires
        edges_fit(streams@),
        size_objection(canvas_width(streams@), canvas_height(streams@)) is None
            ==> frames_on_canvas(streams@, frames@),
    ensures
        match r {
            Ok(img) => {
                &&& size_objection(canvas_width(streams@), canvas_height(streams@)) is None
                &&& img.spec_width() == canvas_width(streams@)
                &&& img.spec_height() == canvas_height(streams@)
                &&& forall|x: int, y: int|
                    0 <= x < img.spec_width() && 0 <= y < img.spec_height()
                        ==> #[trigger] img.pixel(x, y) == stitched(streams@, frames@, x, y)
            },
            Err(e) => size_objection(canvas_width(streams@), canvas_height(streams@)) == Some(e),
        },
{
    broadcast use vstd::std_specs::hash::group_hash_axioms;

    let (cw, ch): (i32, i32) = canvas_size(streams);
    if cw <= 0 || ch <= 0 {
        return Err(StitchError::InvalidSize { w: cw, h: ch });
    }
    if cw > MAX_SIDE || ch > MAX_SIDE {
        return Err(StitchError::TooLarge { w: cw, h: ch });
    }
    proof {
        image::lemma_image_bytes(cw as int, ch as int);
    }
    let mut data: Vec<u8> = black_canvas(cw as usize * ch as usize);
    let mut i: usize = 0;
    proof {
        assert(streams@.take(0) =~= Seq::empty());
        assert forall|x: int, y: int|
            0 <= x < cw && 0 <= y < ch implies #[trigger] image::pixel_at(
            data@,
            image::pixel_start(cw as int, x, y),
        ) == (0u8, 0u8, 0u8, 0xFFu8) by {
            image::lemma_pixel_start(cw as int, ch as int, x, y, x, y);
            let k = y * cw + x;
            assert(image::pixel_at(data@, 4 * k) == (0u8, 0u8, 0u8, 0xFFu8));
        }
    }
    while i < streams.len()
        invariant
            i <= streams@.len(),
            cw == canvas_width(streams@),
            ch == canvas_height(streams@),
            0 < cw <= MAX_SIDE,
            0 < ch <= MAX_SIDE,
            frames_on_canvas(streams@, frames@),
            filled(
                data@,
                cw as int,
                ch as int,
                |x: int, y: int| stitched(streams@.take(i as int), frames@, x, y),
            ),
        decreases streams@.len() - i,
    {
        let s: &StreamInfo = &streams[i];
        let ghost done = streams@.take(i as int);
        proof {
            lemma_canvas_covers(streams@, i as int);
            assert(streams@.take(i + 1) =~= done.push(*s));
            assert(done.push(*s).drop_last() =~= done);
        }
        match frames.get(&s.node_id) {
            Some(f) => {
                blit(&mut data, cw, ch, s, f, Ghost(done), Ghost(frames@));
            },
            None => {
                let ghost f = |x: int, y: int| stitched(done, frames@, x, y);
                let ghost g = |x: int, y: int| stitched(done.push(*s), frames@, x, y);
                assert(f =~= g);
            },
        }
        i = i + 1;
    }
    assert(streams@.take(i as int) =~= streams@);
    let img: Argb32Image = Argb32Image::from_bytes(cw, ch, data);
    proof {
        assert forall|x: int, y: int|
            0 <= x < img.spec_width() && 0 <= y < img.spec_height() implies #[trigger] img.pixel(
            x,
            y,
        ) == stitched(streams@, frames@, x, y) by {
            let f = |x: int, y: int| stitched(streams@, frames@, x, y);
            assert(image::pixel_at(data@, image::pixel_start(cw as int, x, y)) == f(x, y));
        }
    }
    Ok(img)
}

/// The row length that a signed number of bytes stands for: its low bits.
pub open spec fn unsigned_stride(stride: i32) -> int {
    if stride >= 0 {
        stride as int
    } else {
        usize::MAX + 1 + stride
    }
}

/// Collects the first frame of every stream of a capture.
pub struct FrameCollector {
    expected: usize,
    frames: HashMap<u32, Frame>,
}

impl FrameCollector {
    /// The number of frames that complete the capture.
    pub closed spec fn wanted(self) -> nat {
        self.expected as nat
    }

    /// The frames collected so far, by node.
    pub closed spec fn collected(self) -> Map<u32, Frame> {
        self.frames@
    }

    /// Starts without frames.
    pub fn new(expected: usize) -> (r: FrameCollector)
        ensures
            r.wanted() == expected,
            r.collected() == Map::<u32, Frame>::empty(),
    {
        FrameCollector { expected, frames: HashMap::new() }
    }

    /// No frame of this node was collected yet.
    pub fn wants(&self, node_id: u32) -> (r: bool)
        ensures
            r == !self.collected().dom().contains(node_id),
    {
        broadcast use vstd::std_specs::hash::group_hash_axioms;

        !self.frames.contains_key(&node_id)
    }

    /// Takes a stream's buffer: `size` bytes of it, or all that there are. Only
    /// the first frame of a stream is kept. Returns whether this frame completed
    /// the capture.
    pub fn offer(&mut self, stream: &StreamInfo, stride: i32, size: u32, bytes: &[u8]) -> (r: bool)
        ensures
            final(self).wanted() == old(self).wanted(),
            old(self).collected().dom().contains(stream.node()) ==> !r && final(self).collected()
                == old(self).collected(),
            !old(self).collected().dom().contains(stream.node()) ==> {
                let f = final(self).collected()[stream.node()];
                &&& final(self).collected() == old(self).collected().insert(stream.node(), f)
                &&& f.row_bytes() == unsigned_stride(stride)
                &&& f.width() == stream.width()
                &&& f.height() == stream.height()
                &&& f.bytes() == bytes@.take(
                    if size <= bytes@.len() {
                        size as int
                    } else {
                        bytes@.len() as int
                    },
                )
                &&& r == (final(self).collected().len() >= final(self).wanted())
            },
    {
        broadcast use vstd::std_specs::hash::group_hash_axioms;

        if self.frames.contains_key(&stream.node_id) {
            return false;
        }
        let row: usize = if stride >= 0 {
            stride as usize
        } else {
            let short: usize = (-(stride as i64)) as usize;
            usize::MAX - (short - 1)
        };
        let take: usize = if size as u64 <= bytes.len() as u64 {
            size as usize
        } else {
            bytes.len()
        };
        let data: Vec<u8> = vstd::slice::slice_to_vec(
            vstd::slice::slice_subrange(bytes, 0, take),
        );
        assert(data@ =~= bytes@.take(take as int));
        let frame: Frame = Frame::new(stream, row, data);
        self.frames.insert(stream.node_id, frame);
        self.frames.len() >= self.expected
    }

    /// Hands the frames out.
    pub fn into_frames(self) -> (r: HashMap<u32, Frame>)
        ensures
            r@ == self.collected(),
    {
        self.frames
    }
}

/// What to do while waiting for the frames.
#[derive(Debug, Clone, Copy, PartialEq, Eq, Structural)]
pub enum FrameWait {
    /// All frames are there.
    Finish,
    /// The time is up.
    TimeOut,
    /// Look again a little later.
    Wait,
}

/// How long the frames may take, in seconds.
pub const FRAME_DEADLINE_SECS: u64 = 20;

/// How long to wait between two looks, in milliseconds.
pub const POLL_MILLIS: u64 = 20;

/// Frames that have arrived count even when the time is up.
pub fn poll_frames(done: bool, past_deadline: bool) -> (r: FrameWait)
    ensures
        r == (if done {
            FrameWait::Finish
        } else if past_deadline {
            FrameWait::TimeOut
        } else {
            FrameWait::Wait
        }),
{
    if done {
        FrameWait::Finish
    } else if past_deadline {
        FrameWait::TimeOut
    } else {
        FrameWait::Wait
    }
}

/// The nodes that deliver the streams' frames.
pub open spec fn nodes(streams: Seq<StreamInfo>) -> Set<u32> {
    streams.map_values(|s: StreamInfo| s.node()).to_set()
}

/// A capture that holds frames of its streams alone, and as many as there are
/// streams, holds exactly one frame of each.
pub proof fn law_complete_capture(streams: Seq<StreamInfo>, frames: Map<u32, Frame>)
    requires
        frames.dom().subset_of(nodes(streams)),
        frames.len() >= streams.len(),
    ensures
        frames.dom() == nodes(streams),
        frames.len() == streams.len(),
        forall|i: int|
            0 <= i < streams.len() ==> frames.dom().contains(#[trigger] streams[i].node()),
{
    let ids = streams.map_values(|s: StreamInfo| s.node());
    ids.lemma_cardinality_of_set();
    vstd::seq_lib::seq_to_set_is_finite(ids);
    vstd::set_lib::lemma_len_subset(frames.dom(), nodes(streams));
    vstd::set_lib::lemma_subset_equality(frames.dom(), nodes(streams));
    assert forall|i: int| 0 <= i < streams.len() implies frames.dom().contains(
        #[trigger] streams[i].node(),
    ) by {
        assert(ids[i] == streams[i].node());
    }
}

/// Taking a frame of one of the streams leaves a capture that holds frames of the
/// streams alone.
pub proof fn law_only_frames_of_streams(
    streams: Seq<StreamInfo>,
    frames: Map<u32, Frame>,
    i: int,
    f: Frame,
)
    requires
        frames.dom().subset_of(nodes(streams)),
        0 <= i < streams.len(),
    ensures
        frames.insert(streams[i].node(), f).dom().subset_of(nodes(streams)),
        Map::<u32, Frame>::empty().dom().subset_of(nodes(streams)),
{
    let ids = streams.map_values(|s: StreamInfo| s.node());
    assert(ids[i] == streams[i].node());
    assert(ids.to_set().contains(ids[i]));
}

/// Every pixel of a stitched desktop is opaque.
pub proof fn law_stitched_alpha(streams: Seq<StreamInfo>, frames: Map<u32, Frame>, x: int, y: int)
    ensures
        stitched(streams, frames, x, y).3 == 0xFF,
    decreases streams.len(),
{
    if streams.len() > 0 {
        law_stitched_alpha(streams.drop_last(), frames, x, y);
    }
}

/// A pixel comes from the last stream that supplies it.
pub proof fn law_last_stream_wins(
    streams: Seq<StreamInfo>,
    frames: Map<u32, Frame>,
    i: int,
    x: int,
    y: int,
)
    requires
        0 <= i < streams.len(),
        supplies(streams[i], frames, x, y),
        forall|j: int| i < j < streams.len() ==> !supplies(#[trigger] streams[j], frames, x, y),
    ensures
        stitched(streams, frames, x, y) == supplied(streams[i], frames, x, y),
    decreases streams.len(),
{
    if i < streams.len() - 1 {
        assert(!supplies(streams[streams.len() - 1], frames, x, y));
        assert(streams.drop_last()[i] == streams[i]);
        law_last_stream_wins(streams.drop_last(), frames, i, x, y);
    }
}

/// A pixel that no stream supplies is opaque black.
pub proof fn law_gaps_are_black(
    streams: Seq<StreamInfo>,
    frames: Map<u32, Frame>,
    x: int,
    y: int,
)
    requires
        forall|j: int| 0 <= j < streams.len() ==> !supplies(#[trigger] streams[j], frames, x, y),
    ensures
        stitched(streams, frames, x, y) == (0u8, 0u8, 0u8, 0xFFu8),
    decreases streams.len(),
{
    if streams.len() > 0 {
        assert(!supplies(streams[streams.len() - 1], frames, x, y));
        assert forall|j: int| 0 <= j < streams.drop_last().len() implies !supplies(
            #[trigger] streams.drop_last()[j],
            frames,
            x,
            y,
        ) by {
            assert(streams.drop_last()[j] == streams[j]);
        }
        law_gaps_are_black(streams.drop_last(), frames, x, y);
    }
}

/// The canvas reaches as far as the streams and no further: no stream sticks
/// out, and a canvas with an extent ends where some stream ends.
pub proof fn law_canvas_is_bounding_box(streams: Seq<StreamInfo>)
    ensures
        forall|i: int|
            0 <= i < streams.len() ==> {
                &&& (#[trigger] streams[i]).left() + streams[i].width() <= canvas_width(streams)
                &&& streams[i].top() + streams[i].height() <= canvas_height(streams)
            },
        canvas_width(streams) >= 0,
        canvas_height(streams) >= 0,
        canvas_width(streams) > 0 ==> exists|i: int|
            0 <= i < streams.len() && (#[trigger] streams[i]).left() + streams[i].width()
                == canvas_width(streams),
        canvas_height(streams) > 0 ==> exists|i: int|
            0 <= i < streams.len() && (#[trigger] streams[i]).top() + streams[i].height()
                == canvas_height(streams),
    decreases streams.len(),
{
    if streams.len() > 0 {
        let rest = streams.drop_last();
        law_canvas_is_bounding_box(rest);
        assert forall|i: int| 0 <= i < streams.len() implies {
            &&& (#[trigger] streams[i]).left() + streams[i].width() <= canvas_width(streams)
            &&& streams[i].top() + streams[i].height() <= canvas_height(streams)
        } by {
            lemma_canvas_covers(streams, i);
        }
        if canvas_width(streams) > 0 {
            if streams.last().left() + streams.last().width() == canvas_width(streams) {
                assert(streams[streams.len() - 1] == streams.last());
            } else {
                let i = choose|i: int|
                    0 <= i < rest.len() && (#[trigger] rest[i]).left() + rest[i].width()
                        == canvas_width(rest);
                assert(streams[i] == rest[i]);
            }
        }
        if canvas_height(streams) > 0 {
            if streams.last().top() + streams.last().height() == canvas_height(streams) {
                assert(streams[streams.len() - 1] == streams.last());
            } else {
                let i = choose|i: int|
                    0 <= i < rest.len() && (#[trigger] rest[i]).top() + rest[i].height()
                        == canvas_height(rest);
                assert(streams[i] == rest[i]);
            }
        }
    }
}

/// A stream supplies the desktop's pixel from the frame's own row and column: as
/// many row lengths into the frame's bytes as the pixel lies below the stream's
/// upper edge, and four bytes more for each column right of its left edge. Blue
/// comes first; the pixel is opaque.
pub proof fn law_supplied_bytes(s: StreamInfo, frames: Map<u32, Frame>, x: int, y: int)
    ensures
        ({
            let f = frames[s.node()];
            let at = (y - s.top()) * f.row_bytes() + 4 * (x - s.left());
            let (b, g, r, a) = supplied(s, frames, x, y);
            &&& b == f.bytes()[at]
            &&& g == f.bytes()[at + 1]
            &&& r == f.bytes()[at + 2]
            &&& a == 255
        }),
{
}

/// A stream supplies exactly the pixels that lie in its rectangle and for which its
/// frame has the column, the row and all four bytes.
pub proof fn law_supplied_places(s: StreamInfo, frames: Map<u32, Frame>, x: int, y: int)
    ensures
        supplies(s, frames, x, y) <==> frames.dom().contains(s.node()) && {
            let f = frames[s.node()];
            let column = x - s.left();
            let row = y - s.top();
            &&& 0 <= column < s.width() && column < f.width()
            &&& 0 <= row < s.height() && row < f.height()
            &&& row * f.row_bytes() + 4 * column + 4 <= f.bytes().len()
        },
{
}

/// The stream's frame holds the desktop's pixel: the pixel lies in the stream's
/// rectangle, and the frame has that column, that row and all four bytes.
pub open spec fn shows_pixel(s: StreamInfo, frames: Map<u32, Frame>, x: int, y: int) -> bool {
    let f = frames[s.node()];
    &&& frames.dom().contains(s.node())
    &&& s.left() <= x && x - s.left() < s.width() && x - s.left() < f.width()
    &&& s.top() <= y && y - s.top() < s.height() && y - s.top() < f.height()
    &&& (y - s.top()) * f.row_bytes() + 4 * (x - s.left()) + 4 <= f.bytes().len()
}

/// In a desktop of several monitors, each pixel has the colour that the last frame
/// holding it has there: three bytes in the frame's own row and column.
pub proof fn law_desktop_shows_the_frames(
    captured: CapturedRaw,
    i: int,
    x: int,
    y: int,
)
    requires
        0 <= i < captured.streams@.len(),
        shows_pixel(captured.streams@[i], captured.frames@, x, y),
        forall|j: int|
            i < j < captured.streams@.len() ==> !shows_pixel(
                #[trigger] captured.streams@[j],
                captured.frames@,
                x,
                y,
            ),
    ensures
        ({
            let s = captured.streams@[i];
            let f = captured.frames@[s.node()];
            let at = (y - s.top()) * f.row_bytes() + 4 * (x - s.left());
            captured.desktop_pixel(x, y) == (
                f.bytes()[at],
                f.bytes()[at + 1],
                f.bytes()[at + 2],
                255u8,
            )
        }),
{
    let streams = captured.streams@;
    let frames = captured.frames@;
    assert forall|j: int| i < j < streams.len() implies !supplies(
        #[trigger] streams[j],
        frames,
        x,
        y,
    ) by {
        assert(!shows_pixel(streams[j], frames, x, y));
        law_supplied_places(streams[j], frames, x, y);
    }
    law_supplied_places(streams[i], frames, x, y);
    law_supplied_bytes(streams[i], frames, x, y);
    law_last_stream_wins(streams, frames, i, x, y);
}

/// Where no frame holds a pixel, the desktop is black and opaque.
pub proof fn law_desktop_is_black_elsewhere(captured: CapturedRaw, x: int, y: int)
    requires
        forall|j: int|
            0 <= j < captured.streams@.len() ==> !shows_pixel(
                #[trigger] captured.streams@[j],
                captured.frames@,
                x,
                y,
            ),
    ensures
        captured.desktop_pixel(x, y) == (0u8, 0u8, 0u8, 255u8),
{
    let streams = captured.streams@;
    let frames = captured.frames@;
    assert forall|j: int| 0 <= j < streams.len() implies !supplies(
        #[trigger] streams[j],
        frames,
        x,
        y,
    ) by {
        assert(!shows_pixel(streams[j], frames, x, y));
        law_supplied_places(streams[j], frames, x, y);
    }
    law_gaps_are_black(streams, frames, x, y);
}

/// The row length agrees with the signed number of bytes in its low bits, of which
/// a machine word has room for.
pub proof fn law_row_length(stride: i32)
    ensures
        0 <= unsigned_stride(stride) <= usize::MAX,
        unsigned_stride(stride) == stride || unsigned_stride(stride) == stride + usize::MAX + 1,
{
}

/// The size of a desktop is refused exactly if a side is not positive or longer
/// than 32767 pixels.
pub proof fn law_desktop_sizes(w: int, h: int)
    requires
        -0x8000_0000 <= w <= 0x7FFF_FFFF,
        -0x8000_0000 <= h <= 0x7FFF_FFFF,
    ensures
        w <= 0 || h <= 0 ==> size_objection(w, h) == Some(
            StitchError::InvalidSize { w: w as i32, h: h as i32 },
        ),
        0 < w && 0 < h && (w > 32767 || h > 32767) ==> size_objection(w, h) == Some(
            StitchError::TooLarge { w: w as i32, h: h as i32 },
        ),
        0 < w <= 32767 && 0 < h <= 32767 ==> size_objection(w, h) is None,
{
}

/// A reported stream can be captured exactly if both of its sides are positive, and
/// the streams that can be captured stay in their order, each of them once.
pub proof fn law_usable_streams(reports: Seq<StreamReport>, r: StreamReport)
    ensures
        r.usable() <==> r.size is Some && r.size->Some_0.0 > 0 && r.size->Some_0.1 > 0,
        usable(reports.push(r)) == if r.usable() {
            usable(reports).push(r)
        } else {
            usable(reports)
        },
        usable(seq![]) == Seq::<StreamReport>::empty(),
{
    reveal(Seq::filter);
    assert(reports.push(r).drop_last() =~= reports);
}

/// A stream has the node and the size that were reported, and the place, which is
/// the origin where none was.
pub proof fn law_described_stream(s: StreamInfo, r: StreamReport)
    requires
        s.describes(r),
    ensures
        s.node() == r.node_id,
        r.position matches Some(p) ==> s.left() == p.0 && s.top() == p.1,
        r.position is None ==> s.left() == 0 && s.top() == 0,
        r.size matches Some(d) ==> s.width() == d.0 && s.height() == d.1,
{
}

/// A capture can be stitched exactly if every right and lower edge is a machine
/// integer and, where the desktop has a size that an image can have, no stream with
/// a frame starts left of or above the origin.
pub proof fn law_placeable(captured: CapturedRaw)
    ensures
        captured.placeable() <==> {
            let streams = captured.streams@;
            let w = canvas_width(streams);
            let h = canvas_height(streams);
            &&& forall|i: int|
                0 <= i < streams.len() ==> {
                    &&& (#[trigger] streams[i]).left() + streams[i].width() <= 0x7FFF_FFFF
                    &&& streams[i].top() + streams[i].height() <= 0x7FFF_FFFF
                }
            &&& 0 < w <= 32767 && 0 < h <= 32767 ==> forall|i: int|
                0 <= i < streams.len() && captured.frames@.dom().contains(
                    (#[trigger] streams[i]).node(),
                ) ==> streams[i].left() >= 0 && streams[i].top() >= 0
        },
{
}

} // verus!
