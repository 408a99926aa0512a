//! The monitors of the desktop and their places in the captured image.
//!
//! The capture covers the bounding box of all monitors. Where its size differs
//! from that of the box, positions are scaled by the ratio of the two.

use crate::image::MAX_SIDE;
use crate::selection::SelectionRect;
use crate::units::{self, divide_nearest, Point, LIMIT, REACH, UNIT};
use vstd::prelude::*;

verus! {

/// The height that is kept free for the toolbar, and its distance from the
/// selection: 52 and 4 pixels.
pub const TOOLBAR_HEIGHT: i64 = 53248;

pub const TOOLBAR_GAP: i64 = 4096;

/// A monitor's place on the desktop, in logical pixels.
#[derive(Debug, Clone, Copy, PartialEq, Eq, Structural)]
pub struct MonitorGeom {
    pub x: i32,
    pub y: i32,
    pub w: i32,
    pub h: i32,
}

/// The smallest left edge.
pub open spec fn leftmost(ms: Seq<MonitorGeom>) -> int
    decreases ms.len(),
{
    if ms.len() <= 1 {
        ms[0].x as int
    } else {
        units::least(leftmost(ms.drop_last()), ms.last().x as int)
    }
}

/// The smallest upper edge.
pub open spec fn topmost(ms: Seq<MonitorGeom>) -> int
    decreases ms.len(),
{
    if ms.len() <= 1 {
        ms[0].y as int
    } else {
        units::least(topmost(ms.drop_last()), ms.last().y as int)
    }
}

/// The largest right edge.
pub open spec fn rightmost(ms: Seq<MonitorGeom>) -> int
    decreases ms.len(),
{
    if ms.len() <= 1 {
        ms[0].x + ms[0].w
    } else {
        units::greatest(rightmost(ms.drop_last()), ms.last().x + ms.last().w)
    }
}

/// The largest lower edge.
pub open spec fn bottommost(ms: Seq<MonitorGeom>) -> int
    decreases ms.len(),
{
    if ms.len() <= 1 {
        ms[0].y + ms[0].h
    } else {
        units::greatest(bottommost(ms.drop_last()), ms.last().y + ms.last().h)
    }
}

/// A number is a machine integer of 32 bits.
pub open spec fn is_i32(n: int) -> bool {
    i32::MIN <= n <= i32::MAX
}

/// The right and lower edges of all monitors, the size of their bounding box and
/// their distances from its corner are machine integers.
pub open spec fn spans_fit(ms: Seq<MonitorGeom>) -> bool {
    &&& forall|i: int|
        0 <= i < ms.len() ==> {
            &&& is_i32((#[trigger] ms[i]).x + ms[i].w)
            &&& is_i32(ms[i].y + ms[i].h)
            &&& is_i32(ms[i].x - leftmost(ms))
            &&& is_i32(ms[i].y - topmost(ms))
        }
    &&& ms.len() > 0 ==> is_i32(rightmost(ms) - leftmost(ms))
    &&& ms.len() > 0 ==> is_i32(bottommost(ms) - topmost(ms))
}

/// Every monitor lies in the bounding box.
proof fn lemma_bounds(ms: Seq<MonitorGeom>, i: int)
    requires
        0 <= i < ms.len(),
    ensures
        leftmost(ms) <= ms[i].x,
        topmost(ms) <= ms[i].y,
        ms[i].x + ms[i].w <= rightmost(ms),
        ms[i].y + ms[i].h <= bottommost(ms),
    decreases ms.len(),
{
    if ms.len() > 1 && i < ms.len() - 1 {
        lemma_bounds(ms.drop_last(), i);
    }
}

/// The outermost edges, as left, top, right and bottom.
fn outer_edges(ms: &[MonitorGeom]) -> (r: (i64, i64, i64, i64))
    requires
        ms@.len() > 0,
    ensures
        r.0 == leftmost(ms@),
        r.1 == topmost(ms@),
        r.2 == rightmost(ms@),
        r.3 == bottommost(ms@),
        -0x8000_0000 <= r.0 <= 0x7FFF_FFFF,
        -0x8000_0000 <= r.1 <= 0x7FFF_FFFF,
        -0x1_0000_0000 <= r.2 <= 0xFFFF_FFFE,
        -0x1_0000_0000 <= r.3 <= 0xFFFF_FFFE,
{
    let mut min_x: i64 = ms[0].x as i64;
    let mut min_y: i64 = ms[0].y as i64;
    let mut max_x: i64 = ms[0].x as i64 + ms[0].w as i64;
    let mut max_y: i64 = ms[0].y as i64 + ms[0].h as i64;
    let mut i: usize = 1;
    assert(ms@.take(1).len() == 1);
    while i < ms.len()
        invariant
            1 <= i <= ms@.len(),
            min_x == leftmost(ms@.take(i as int)),
            min_y == topmost(ms@.take(i as int)),
            max_x == rightmost(ms@.take(i as int)),
            max_y == bottommost(ms@.take(i as int)),
            -0x8000_0000 <= min_x <= 0x7FFF_FFFF,
            -0x8000_0000 <= min_y <= 0x7FFF_FFFF,
            -0x1_0000_0000 <= max_x <= 0xFFFF_FFFE,
            -0x1_0000_0000 <= max_y <= 0xFFFF_FFFE,
        decreases ms@.len() - i,
    {
        let m: MonitorGeom = ms[i];
        proof {
            let next = ms@.take(i + 1);
            assert(next.drop_last() =~= ms@.take(i as int));
            assert(next.last() == m);
        }
        min_x = units::min_of(min_x, m.x as i64);
        min_y = units::min_of(min_y, m.y as i64);
        max_x = units::max_of(max_x, m.x as i64 + m.w as i64);
        max_y = units::max_of(max_y, m.y as i64 + m.h as i64);
        i = i + 1;
    }
    assert(ms@.take(i as int) =~= ms@);
    (min_x, min_y, max_x, max_y)
}

fn fits_i32(n: i64) -> (r: bool)
    ensures
        r == is_i32(n as int),
{
    -0x8000_0000 <= n && n <= 0x7FFF_FFFF
}

/// Whether the monitors have a bounding box of machine integers.
pub fn is_spannable(ms: &[MonitorGeom]) -> (r: bool)
    ensures
        r == spans_fit(ms@),
{
    if ms.len() == 0 {
        return true;
    }
    let (min_x, min_y, max_x, max_y): (i64, i64, i64, i64) = outer_edges(ms);
    let mut i: usize = 0;
    while i < ms.len()
        invariant
            i <= ms@.len(),
            min_x == leftmost(ms@),
            min_y == topmost(ms@),
            -0x8000_0000 <= min_x <= 0x7FFF_FFFF,
            -0x8000_0000 <= min_y <= 0x7FFF_FFFF,
            forall|j: int|
                0 <= j < i ==> {
                    &&& is_i32((#[trigger] ms@[j]).x + ms@[j].w)
                    &&& is_i32(ms@[j].y + ms@[j].h)
                    &&& is_i32(ms@[j].x - leftmost(ms@))
                    &&& is_i32(ms@[j].y - topmost(ms@))
                },
        decreases ms@.len() - i,
    {
        let m: MonitorGeom = ms[i];
        if !fits_i32(m.x as i64 + m.w as i64) || !fits_i32(m.y as i64 + m.h as i64) || !fits_i32(
            m.x as i64 - min_x,
        ) || !fits_i32(m.y as i64 - min_y) {
            assert(ms@[i as int] == m);
            return false;
        }
        i = i + 1;
    }
    fits_i32(max_x - min_x) && fits_i32(max_y - min_y)
}

/// The bounding box of the monitors: its corner, then its size. Without
/// monitors it is empty.
pub fn desktop_bounds(ms: &[MonitorGeom]) -> (r: (i32, i32, i32, i32))
    requires
        spans_fit(ms@),
    ensures
        ms@.len() == 0 ==> r == (0i32, 0i32, 0i32, 0i32),
        ms@.len() > 0 ==> {
            &&& r.0 == leftmost(ms@)
            &&& r.1 == topmost(ms@)
            &&& r.2 == rightmost(ms@) - leftmost(ms@)
            &&& r.3 == bottommost(ms@) - topmost(ms@)
        },
{
    if ms.len() == 0 {
        return (0, 0, 0, 0);
    }
    let (min_x, min_y, max_x, max_y): (i64, i64, i64, i64) = outer_edges(ms);
    proof {
        lemma_bounds(ms@, 0);
    }
    (min_x as i32, min_y as i32, (max_x - min_x) as i32, (max_y - min_y) as i32)
}

/// A length of `d` logical pixels in the capture, in coordinate units, where
/// `capture` pixels of it show `desk` logical ones. Without a desktop size
/// nothing is scaled.
pub open spec fn scaled_units(d: int, capture: int, desk: int) -> int {
    if desk > 0 {
        units::nearest(d * UNIT * capture, desk)
    } else {
        d * UNIT
    }
}

/// The same in whole pixels.
pub open spec fn scaled_pixels(d: int, capture: int, desk: int) -> int {
    if desk > 0 {
        units::nearest(d * capture, desk)
    } else {
        d
    }
}

/// Half of `c` is at or past `d` logical pixels. The comparison is exact.
pub open spec fn at_or_past(c: int, d: int, capture: int, desk: int) -> bool {
    if desk > 0 {
        c * desk >= 2 * d * UNIT * capture
    } else {
        c >= 2 * d * UNIT
    }
}

/// A quotient is not further from zero than the dividend, but for the rounding.
proof fn lemma_nearest_bound(a: int, b: int)
    requires
        0 < b,
    ensures
        a >= 0 ==> 0 <= units::nearest(a, b) <= a + 1,
        a < 0 ==> a - 1 <= units::nearest(a, b) <= 0,
{
    let m = units::magnitude(a);
    assert(0 <= (2 * m + b) / (2 * b) <= m + 1) by (nonlinear_arith)
        requires
            0 <= m,
            0 < b,
    ;
}

/// Bound on the places of monitors in the capture.
pub const ORIGIN_LIMIT: i64 = 0x200_0000_0000_0000;

fn to_scaled_units(d: i32, capture: i32, desk: i32) -> (r: i64)
    requires
        0 <= capture <= MAX_SIDE,
    ensures
        r == scaled_units(d as int, capture as int, desk as int),
        -ORIGIN_LIMIT <= r <= ORIGIN_LIMIT,
        d >= 0 ==> r >= 0,
{
    if desk > 0 {
        let e: i64 = d as i64 * UNIT;
        assert(-0x8000_0000 * 1024 * 32767 <= e * capture <= 0x8000_0000 * 1024 * 32767)
            by (nonlinear_arith)
            requires
                -0x8000_0000 * 1024 <= e <= 0x8000_0000 * 1024,
                0 <= capture <= 32767,
        ;
        proof {
            lemma_nearest_bound(e * capture, desk as int);
            if d >= 0 {
                assert(e * capture >= 0) by (nonlinear_arith)
                    requires
                        e >= 0,
                        capture >= 0,
                ;
            }
        }
        divide_nearest(e * capture as i64, desk as i64)
    } else {
        d as i64 * UNIT
    }
}

fn to_scaled_pixels(d: i32, capture: i32, desk: i32) -> (r: i64)
    requires
        0 <= capture <= MAX_SIDE,
    ensures
        r == scaled_pixels(d as int, capture as int, desk as int),
{
    if desk > 0 {
        assert(-0x8000_0000 * 32767 <= d * capture <= 0x8000_0000 * 32767) by (nonlinear_arith)
            requires
                -0x8000_0000 <= d <= 0x7FFF_FFFF,
                0 <= capture <= 32767,
        ;
        divide_nearest(d as i64 * capture as i64, desk as i64)
    } else {
        d as i64
    }
}

fn is_at_or_past(c: i64, d: i64, capture: i32, desk: i32) -> (r: bool)
    requires
        0 <= capture <= MAX_SIDE,
        -0x100_0000_0000 <= c <= 0x100_0000_0000,
        -0x1_0000_0000 <= d <= 0x1_0000_0000,
    ensures
        r == at_or_past(c as int, d as int, capture as int, desk as int),
{
    if desk > 0 {
        proof {
            assert(-0x100_0000_0000 * 0x8000_0000 <= c * desk <= 0x100_0000_0000 * 0x8000_0000)
                by (nonlinear_arith)
                requires
                    -0x100_0000_0000 <= c <= 0x100_0000_0000,
                    0 < desk <= 0x7FFF_FFFF,
            ;
            let e = 2 * d * UNIT;
            assert(-0x2000_0000_0000 <= e <= 0x2000_0000_0000);
            assert(-0x2000_0000_0000 * 32767 <= e * capture <= 0x2000_0000_0000 * 32767)
                by (nonlinear_arith)
                requires
                    -0x2000_0000_0000 <= e <= 0x2000_0000_0000,
                    0 <= capture <= 32767,
            ;
        }
        c as i128 * desk as i128 >= (2 * d as i128 * UNIT as i128) * capture as i128
    } else {
        c >= 2 * d * UNIT
    }
}

/// The machine integer closest to a number.
pub open spec fn saturated(n: int) -> int {
    units::clamped(n, i32::MIN as int, i32::MAX as int)
}

fn saturate(n: i64) -> (r: i32)
    ensures
        r == saturated(n as int),
{
    units::clamp_of(n, -0x8000_0000, 0x7FFF_FFFF) as i32
}

/// The whole pixels in a coordinate, as a machine integer.
fn whole_pixels(a: i64) -> (r: i32)
    requires
        a > i64::MIN,
    ensures
        r == saturated(units::whole(a as int)),
{
    if a < 0 {
        saturate(-((-a) / UNIT))
    } else {
        saturate(a / UNIT)
    }
}

/// The part of the capture that one monitor shows.
#[derive(Debug, Clone, Copy, PartialEq, Eq, Structural)]
pub struct MonitorCrop {
    pub src_x: i32,
    pub src_y: i32,
    pub dst_w: i32,
    pub dst_h: i32,
}

/// Where the toolbar goes: on which monitor, and how far from its left and
/// upper edges.
#[derive(Debug, Clone, Copy, PartialEq, Eq, Structural)]
pub struct Placement {
    pub host: usize,
    pub margin_start: i32,
    pub margin_top: i32,
}

/// Why there is no desktop to select on.
#[derive(Debug, Clone, Copy, PartialEq, Eq, Structural)]
pub enum DesktopError {
    NoMonitors,
    /// The bounding box of the monitors cannot be told in machine integers.
    Unbounded,
}

/// The monitors and the size of the capture.
pub struct DesktopView {
    pub monitors: Seq<MonitorGeom>,
    pub capture_w: int,
    pub capture_h: int,
    /// The bounding box of the monitors: its corner and its size.
    pub desk_x: int,
    pub desk_y: int,
    pub desk_w: int,
    pub desk_h: int,
}

impl DesktopView {
    pub open spec fn wf(self) -> bool {
        &&& self.monitors.len() > 0
        &&& spans_fit(self.monitors)
        &&& 0 <= self.capture_w <= MAX_SIDE
        &&& 0 <= self.capture_h <= MAX_SIDE
        &&& self.desk_x == leftmost(self.monitors)
        &&& self.desk_y == topmost(self.monitors)
        &&& self.desk_w == rightmost(self.monitors) - leftmost(self.monitors)
        &&& self.desk_h == bottommost(self.monitors) - topmost(self.monitors)
    }

    /// A monitor's distance from the corner of the bounding box.
    pub open spec fn dx(self, i: int) -> int {
        self.monitors[i].x - self.desk_x
    }

    pub open spec fn dy(self, i: int) -> int {
        self.monitors[i].y - self.desk_y
    }

    /// The corner of a monitor in the capture.
    pub open spec fn origin(self, i: int) -> Point {
        Point {
            x: scaled_units(self.dx(i), self.capture_w, self.desk_w) as i64,
            y: scaled_units(self.dy(i), self.capture_h, self.desk_h) as i64,
        }
    }

    /// The part of the capture that the monitor shows, at least one pixel.
    pub open spec fn crop(self, i: int) -> MonitorCrop {
        let m = self.monitors[i];
        MonitorCrop {
            src_x: saturated(scaled_pixels(self.dx(i), self.capture_w, self.desk_w)) as i32,
            src_y: saturated(scaled_pixels(self.dy(i), self.capture_h, self.desk_h)) as i32,
            dst_w: saturated(
                units::greatest(scaled_pixels(m.w as int, self.capture_w, self.desk_w), 1),
            ) as i32,
            dst_h: saturated(
                units::greatest(scaled_pixels(m.h as int, self.capture_h, self.desk_h), 1),
            ) as i32,
        }
    }

    /// The centre of the selection lies on the monitor.
    pub open spec fn holds(self, i: int, sel: SelectionRect) -> bool {
        let m = self.monitors[i];
        let cx = 2 * sel.x + sel.w;
        let cy = 2 * sel.y + sel.h;
        &&& at_or_past(cx, self.dx(i), self.capture_w, self.desk_w)
        &&& !at_or_past(cx, self.dx(i) + m.w, self.capture_w, self.desk_w)
        &&& at_or_past(cy, self.dy(i), self.capture_h, self.desk_h)
        &&& !at_or_past(cy, self.dy(i) + m.h, self.capture_h, self.desk_h)
    }

    /// The first of the monitors from `i` on that holds the centre of the
    /// selection, or the very first monitor where none does.
    pub open spec fn host_from(self, i: int, sel: SelectionRect) -> int
        decreases self.monitors.len() - i,
    {
        if i >= self.monitors.len() {
            0
        } else if self.holds(i, sel) {
            i
        } else {
            self.host_from(i + 1, sel)
        }
    }
}

/// The rectangle's fields are those of a selection within reach of the pointer.
pub open spec fn near_screen(sel: SelectionRect) -> bool {
    &&& -2 * REACH <= sel.x <= 2 * REACH
    &&& -2 * REACH <= sel.y <= 2 * REACH
    &&& -2 * REACH <= sel.w <= 2 * REACH
    &&& -2 * REACH <= sel.h <= 2 * REACH
}

/// The toolbar's distance from the upper edge of a screen of height `screen_h`:
/// below the selection where there is room for it, else above.
pub open spec fn toolbar_top(sel: SelectionRect, screen_h: int) -> int {
    let below = sel.bottom() + TOOLBAR_GAP;
    if below + TOOLBAR_HEIGHT > screen_h {
        units::greatest(sel.y - TOOLBAR_HEIGHT - TOOLBAR_GAP, 0)
    } else {
        below
    }
}

/// Finds the toolbar's margins for a selection on a screen of this height.
pub fn position_toolbar(sel: &SelectionRect, screen_h: i64) -> (r: (i32, i32))
    requires
        sel.measurable(),
        -LIMIT <= screen_h <= LIMIT,
    ensures
        r.0 == saturated(units::whole(units::greatest(sel.x as int, 0))),
        r.1 == saturated(units::whole(toolbar_top(*sel, screen_h as int))),
{
    let below: i64 = sel.y + sel.h + TOOLBAR_GAP;
    let y: i64 = if below + TOOLBAR_HEIGHT > screen_h {
        units::max_of(sel.y - TOOLBAR_HEIGHT - TOOLBAR_GAP, 0)
    } else {
        below
    };
    (whole_pixels(units::max_of(sel.x, 0)), whole_pixels(y))
}

/// The desktop that is being captured.
#[derive(Debug)]
pub struct Desktop {
    monitors: Vec<MonitorGeom>,
    x: i32,
    y: i32,
    w: i32,
    h: i32,
    capture_w: i32,
    capture_h: i32,
}

impl View for Desktop {
    type V = DesktopView;

    closed spec fn view(&self) -> DesktopView {
        DesktopView {
            monitors: self.monitors@,
            capture_w: self.capture_w as int,
            capture_h: self.capture_h as int,
            desk_x: self.x as int,
            desk_y: self.y as int,
            desk_w: self.w as int,
            desk_h: self.h as int,
        }
    }
}

impl Desktop {
    #[verifier::type_invariant]
    spec fn inv(self) -> bool {
        self@.wf()
    }

    /// The desktop made of these monitors, captured as an image of the given
    /// size.
    pub fn new(monitors: Vec<MonitorGeom>, capture_w: i32, capture_h: i32) -> (r: Result<
        Desktop,
        DesktopError,
    >)
        requires
            0 <= capture_w <= MAX_SIDE,
            0 <= capture_h <= MAX_SIDE,
        ensures
            r == Err::<Desktop, DesktopError>(DesktopError::NoMonitors) <==> monitors@.len() == 0,
            r == Err::<Desktop, DesktopError>(DesktopError::Unbounded) <==> monitors@.len() > 0
                && !spans_fit(monitors@),
            r matches Ok(d) ==> {
                &&& d@.monitors == monitors@
                &&& d@.capture_w == capture_w
                &&& d@.capture_h == capture_h
                &&& d@.wf()
            },
    {
        if monitors.len() == 0 {
            return Err(DesktopError::NoMonitors);
        }
        if !is_spannable(monitors.as_slice()) {
            return Err(DesktopError::Unbounded);
        }
        let (x, y, w, h): (i32, i32, i32, i32) = desktop_bounds(monitors.as_slice());
        Ok(Desktop { monitors, x, y, w, h, capture_w, capture_h })
    }

    pub fn len(&self) -> (n: usize)
        ensures
            n == self@.monitors.len(),
            n > 0,
    {
        proof {
            use_type_invariant(self);
        }
        self.monitors.len()
    }

    pub fn monitor(&self, i: usize) -> (r: MonitorGeom)
        requires
            i < self@.monitors.len(),
        ensures
            r == self@.monitors[i as int],
    {
        self.monitors[i]
    }

    /// The corner of a monitor in the capture.
    pub fn origin(&self, i: usize) -> (r: Point)
        requires
            i < self@.monitors.len(),
        ensures
            r == self@.origin(i as int),
            0 <= r.x <= ORIGIN_LIMIT,
            0 <= r.y <= ORIGIN_LIMIT,
    {
        proof {
            use_type_invariant(self);
            lemma_bounds(self.monitors@, i as int);
        }
        let m: MonitorGeom = self.monitors[i];
        Point {
            x: to_scaled_units((m.x as i64 - self.x as i64) as i32, self.capture_w, self.w),
            y: to_scaled_units((m.y as i64 - self.y as i64) as i32, self.capture_h, self.h),
        }
    }

    /// The part of the capture that a monitor shows.
    pub fn crop(&self, i: usize) -> (r: MonitorCrop)
        requires
            i < self@.monitors.len(),
        ensures
            r == self@.crop(i as int),
            1 <= r.dst_w,
            1 <= r.dst_h,
    {
        proof {
            use_type_invariant(self);
            lemma_bounds(self.monitors@, i as int);
        }
        let m: MonitorGeom = self.monitors[i];
        let dx: i32 = (m.x as i64 - self.x as i64) as i32;
        let dy: i32 = (m.y as i64 - self.y as i64) as i32;
        let w: i64 = to_scaled_pixels(m.w, self.capture_w, self.w);
        let h: i64 = to_scaled_pixels(m.h, self.capture_h, self.h);
        MonitorCrop {
            src_x: saturate(to_scaled_pixels(dx, self.capture_w, self.w)),
            src_y: saturate(to_scaled_pixels(dy, self.capture_h, self.h)),
            dst_w: saturate(units::max_of(w, 1)),
            dst_h: saturate(units::max_of(h, 1)),
        }
    }

    /// The monitor that the toolbar goes to: the first that holds the centre of
    /// the selection, or else the first of all.
    pub fn host(&self, sel: &SelectionRect) -> (r: usize)
        requires
            near_screen(*sel),
        ensures
            r == self@.host_from(0, *sel),
            r < self@.monitors.len(),
    {
        proof {
            use_type_invariant(self);
        }
        let cx: i64 = 2 * sel.x + sel.w;
        let cy: i64 = 2 * sel.y + sel.h;
        let mut i: usize = 0;
        while i < self.monitors.len()
            invariant
                i <= self.monitors@.len(),
                self.inv(),
                cx == 2 * sel.x + sel.w,
                cy == 2 * sel.y + sel.h,
                -0x100_0000_0000 <= cx <= 0x100_0000_0000,
                -0x100_0000_0000 <= cy <= 0x100_0000_0000,
                self@.host_from(i as int, *sel) == self@.host_from(0, *sel),
            decreases self.monitors@.len() - i,
        {
            let m: MonitorGeom = self.monitors[i];
            proof {
                lemma_bounds(self.monitors@, i as int);
            }
            let dx: i64 = m.x as i64 - self.x as i64;
            let dy: i64 = m.y as i64 - self.y as i64;
            if is_at_or_past(cx, dx, self.capture_w, self.w) && !is_at_or_past(
                cx,
                dx + m.w as i64,
                self.capture_w,
                self.w,
            ) && is_at_or_past(cy, dy, self.capture_h, self.h) && !is_at_or_past(
                cy,
                dy + m.h as i64,
                self.capture_h,
                self.h,
            ) {
                return i;
            }
            i = i + 1;
        }
        0
    }

    /// Where the toolbar goes for this selection.
    pub fn place_toolbar(&self, sel: &SelectionRect) -> (r: Placement)
        requires
            near_screen(*sel),
        ensures
            r.host == self@.host_from(0, *sel),
            r.host < self@.monitors.len(),
            ({
                let local = sel.seen_from(self@.origin(r.host as int));
                let height = scaled_units(
                    self@.monitors[r.host as int].h as int,
                    self@.capture_h,
                    self@.desk_h,
                );
                &&& r.margin_start == saturated(units::whole(units::greatest(local.x as int, 0)))
                &&& r.margin_top == saturated(units::whole(toolbar_top(local, height)))
            }),
    {
        let host: usize = self.host(sel);
        let origin: Point = self.origin(host);
        let local: SelectionRect = sel.to_local(origin);
        proof {
            use_type_invariant(self);
        }
        let height: i64 = to_scaled_units(self.monitors[host].h, self.capture_h, self.h);
        let (margin_start, margin_top): (i32, i32) = position_toolbar(&local, height);
        Placement { host, margin_start, margin_top }
    }
}

/// The bounding box covers every monitor, and each of its edges is the edge of
/// some monitor.
pub proof fn law_bounds_are_tight(ms: Seq<MonitorGeom>)
    requires
        ms.len() > 0,
    ensures
        forall|i: int|
            0 <= i < ms.len() ==> {
                &&& leftmost(ms) <= (#[trigger] ms[i]).x
                &&& topmost(ms) <= ms[i].y
                &&& ms[i].x + ms[i].w <= rightmost(ms)
                &&& ms[i].y + ms[i].h <= bottommost(ms)
            },
        exists|i: int| 0 <= i < ms.len() && (#[trigger] ms[i]).x == leftmost(ms),
        exists|i: int| 0 <= i < ms.len() && (#[trigger] ms[i]).y == topmost(ms),
        exists|i: int| 0 <= i < ms.len() && (#[trigger] ms[i]).x + ms[i].w == rightmost(ms),
        exists|i: int| 0 <= i < ms.len() && (#[trigger] ms[i]).y + ms[i].h == bottommost(ms),
    decreases ms.len(),
{
    assert forall|i: int| 0 <= i < ms.len() implies {
        &&& leftmost(ms) <= (#[trigger] ms[i]).x
        &&& topmost(ms) <= ms[i].y
        &&& ms[i].x + ms[i].w <= rightmost(ms)
        &&& ms[i].y + ms[i].h <= bottommost(ms)
    } by {
        lemma_bounds(ms, i);
    }
    if ms.len() == 1 {
        assert(ms[0].x == leftmost(ms));
    } else {
        let rest = ms.drop_last();
        law_bounds_are_tight(rest);
        let n = ms.len() - 1;
        let a = choose|i: int| 0 <= i < rest.len() && (#[trigger] rest[i]).x == leftmost(rest);
        let b = choose|i: int| 0 <= i < rest.len() && (#[trigger] rest[i]).y == topmost(rest);
        let c = choose|i: int|
            0 <= i < rest.len() && (#[trigger] rest[i]).x + rest[i].w == rightmost(rest);
        let d = choose|i: int|
            0 <= i < rest.len() && (#[trigger] rest[i]).y + rest[i].h == bottommost(rest);
        assert(ms[a].x == leftmost(rest) && ms[n] == ms.last());
        assert(ms[b].y == topmost(rest));
        assert(ms[c].x + ms[c].w == rightmost(rest));
        assert(ms[d].y + ms[d].h == bottommost(rest));
    }
}

/// The toolbar goes to a monitor that holds the centre of the selection,
/// whenever there is one.
pub proof fn law_toolbar_follows_selection(d: DesktopView, sel: SelectionRect, i: int)
    requires
        0 <= i < d.monitors.len(),
        d.holds(i, sel),
    ensures
        0 <= d.host_from(0, sel) <= i,
        d.holds(d.host_from(0, sel), sel),
{
    lemma_host(d, sel, 0, i);
}

proof fn lemma_host(d: DesktopView, sel: SelectionRect, from: int, i: int)
    requires
        0 <= from <= i < d.monitors.len(),
        d.holds(i, sel),
    ensures
        from <= d.host_from(from, sel) <= i,
        d.holds(d.host_from(from, sel), sel),
    decreases i - from,
{
    if !d.holds(from, sel) {
        lemma_host(d, sel, from + 1, i);
    }
}

/// The toolbar covers no part of the selection and ends on the screen where
/// there is room for it below, and likewise where there is room above only.
pub proof fn law_toolbar_stays_clear(sel: SelectionRect, screen_h: int)
    requires
        sel.upright(),
    ensures
        ({
            let top = toolbar_top(sel, screen_h);
            let room_below = sel.bottom() + TOOLBAR_GAP + TOOLBAR_HEIGHT <= screen_h;
            let room_above = sel.y >= TOOLBAR_HEIGHT + TOOLBAR_GAP;
            &&& room_below ==> sel.bottom() <= top && top + TOOLBAR_HEIGHT <= screen_h
            &&& !room_below && room_above ==> 0 <= top && top + TOOLBAR_HEIGHT <= sel.y
        }),
{
}

/// Where the capture has the size of the desktop, a monitor shows exactly the
/// pixels at its place.
pub proof fn law_unscaled_capture(d: DesktopView, i: int)
    requires
        d.wf(),
        0 <= i < d.monitors.len(),
        d.capture_w == d.desk_w,
        d.capture_h == d.desk_h,
        d.monitors[i].w > 0,
        d.monitors[i].h > 0,
    ensures
        d.crop(i) == (MonitorCrop {
            src_x: d.dx(i) as i32,
            src_y: d.dy(i) as i32,
            dst_w: d.monitors[i].w,
            dst_h: d.monitors[i].h,
        }),
        d.origin(i).x == d.dx(i) * UNIT,
        d.origin(i).y == d.dy(i) * UNIT,
{
    lemma_bounds(d.monitors, i);
    lemma_nearest_exact(d.dx(i), d.desk_w);
    lemma_nearest_exact(d.dy(i), d.desk_h);
    lemma_nearest_exact(d.monitors[i].w as int, d.desk_w);
    lemma_nearest_exact(d.monitors[i].h as int, d.desk_h);
    lemma_nearest_exact(d.dx(i) * UNIT, d.desk_w);
    lemma_nearest_exact(d.dy(i) * UNIT, d.desk_h);
}

proof fn lemma_nearest_exact(a: int, b: int)
    requires
        0 <= a,
        0 < b,
    ensures
        units::nearest(a * b, b) == a,
{
    assert(0 <= a * b) by (nonlinear_arith)
        requires
            0 <= a,
            0 < b,
    ;
    assert((2 * (a * b) + b) / (2 * b) == a) by (nonlinear_arith)
        requires
            0 <= a,
            0 < b,
    ;
}

/// A scaled length is to the length as the capture's size is to the desktop's, to
/// the nearest coordinate unit; there are 1024 of them to a pixel.
pub proof fn law_scaled_units(d: int, capture: int, desk: int)
    ensures
        desk > 0 ==> -desk <= 2 * (1024 * d * capture - desk * scaled_units(d, capture, desk))
            <= desk,
        desk <= 0 ==> scaled_units(d, capture, desk) == 1024 * d,
        desk > 0 && capture == desk ==> scaled_units(d, capture, desk) == 1024 * d,
{
    if desk > 0 {
        units::law_nearest(d * UNIT * capture, desk);
        assert(d * UNIT * capture == 1024 * d * capture);
        if capture == desk {
            let r = scaled_units(d, capture, desk);
            assert(r == 1024 * d) by (nonlinear_arith)
                requires
                    desk > 0,
                    -desk <= 2 * (1024 * d * desk - desk * r) <= desk,
            ;
        }
    }
}

/// The same in whole pixels.
pub proof fn law_scaled_pixels(d: int, capture: int, desk: int)
    ensures
        desk > 0 ==> -desk <= 2 * (d * capture - desk * scaled_pixels(d, capture, desk)) <= desk,
        desk <= 0 ==> scaled_pixels(d, capture, desk) == d,
{
    if desk > 0 {
        units::law_nearest(d * capture, desk);
    }
}

/// A monitor starts in the capture where its distance from the desktop's left and
/// upper edges leads: that distance, scaled to the capture.
pub proof fn law_monitor_starts_at_its_place(d: DesktopView, i: int)
    requires
        d.wf(),
        0 <= i < d.monitors.len(),
    ensures
        ({
            let dx = d.monitors[i].x - leftmost(d.monitors);
            let dy = d.monitors[i].y - topmost(d.monitors);
            let w = rightmost(d.monitors) - leftmost(d.monitors);
            let h = bottommost(d.monitors) - topmost(d.monitors);
            let p = d.origin(i);
            &&& w > 0 ==> -w <= 2 * (1024 * dx * d.capture_w - w * p.x) <= w
            &&& w <= 0 ==> p.x == 1024 * dx
            &&& h > 0 ==> -h <= 2 * (1024 * dy * d.capture_h - h * p.y) <= h
            &&& h <= 0 ==> p.y == 1024 * dy
        }),
{
    lemma_bounds(d.monitors, i);
    lemma_scaled_fits(d.dx(i), d.capture_w, d.desk_w);
    lemma_scaled_fits(d.dy(i), d.capture_h, d.desk_h);
    law_scaled_units(d.dx(i), d.capture_w, d.desk_w);
    law_scaled_units(d.dy(i), d.capture_h, d.desk_h);
}

proof fn lemma_scaled_fits(d: int, capture: int, desk: int)
    requires
        is_i32(d),
        0 <= capture <= MAX_SIDE,
        desk <= i32::MAX,
    ensures
        i64::MIN <= scaled_units(d, capture, desk) <= i64::MAX,
{
    if desk > 0 {
        let e = d * UNIT;
        assert(-0x8000_0000 * 1024 * 32767 <= e * capture <= 0x8000_0000 * 1024 * 32767)
            by (nonlinear_arith)
            requires
                -0x8000_0000 * 1024 <= e <= 0x8000_0000 * 1024,
                0 <= capture <= 32767,
        ;
        lemma_nearest_bound(e * capture, desk);
    }
}

/// A number that is no machine integer becomes the nearest one, and the others stay
/// as they are.
pub proof fn law_saturated(n: int)
    ensures
        -0x8000_0000 <= n <= 0x7FFF_FFFF ==> saturated(n) == n,
        n < -0x8000_0000 ==> saturated(n) == -0x8000_0000,
        n > 0x7FFF_FFFF ==> saturated(n) == 0x7FFF_FFFF,
{
}

/// The number is a length scaled to the capture: in proportion, to the nearest
/// pixel.
pub open spec fn is_scaled(n: int, d: int, capture: int, desk: int) -> bool {
    &&& desk > 0 ==> -desk <= 2 * (d * capture - desk * n) <= desk
    &&& desk <= 0 ==> n == d
}

/// A monitor shows the part of the capture that starts at its place and has its
/// size, both scaled to the capture. No part is without pixels.
pub proof fn law_monitor_shows_its_part(d: DesktopView, i: int)
    requires
        d.wf(),
        0 <= i < d.monitors.len(),
    ensures
        ({
            let m = d.monitors[i];
            let dx = m.x - leftmost(d.monitors);
            let dy = m.y - topmost(d.monitors);
            let w = rightmost(d.monitors) - leftmost(d.monitors);
            let h = bottommost(d.monitors) - topmost(d.monitors);
            let c = d.crop(i);
            &&& c.src_x < 0x7FFF_FFFF ==> is_scaled(c.src_x as int, dx, d.capture_w, w)
            &&& c.src_y < 0x7FFF_FFFF ==> is_scaled(c.src_y as int, dy, d.capture_h, h)
            &&& 1 < c.dst_w < 0x7FFF_FFFF ==> is_scaled(c.dst_w as int, m.w as int, d.capture_w, w)
            &&& 1 < c.dst_h < 0x7FFF_FFFF ==> is_scaled(c.dst_h as int, m.h as int, d.capture_h, h)
            &&& 0 <= c.src_x && 0 <= c.src_y
            &&& 1 <= c.dst_w && 1 <= c.dst_h
            &&& c.dst_w == 1 ==> 2 * m.w * d.capture_w <= 3 * w || w <= 0 && m.w <= 1
            &&& c.dst_h == 1 ==> 2 * m.h * d.capture_h <= 3 * h || h <= 0 && m.h <= 1
        }),
{
    let m = d.monitors[i];
    lemma_bounds(d.monitors, i);
    law_scaled_pixels(d.dx(i), d.capture_w, d.desk_w);
    law_scaled_pixels(d.dy(i), d.capture_h, d.desk_h);
    law_scaled_pixels(m.w as int, d.capture_w, d.desk_w);
    law_scaled_pixels(m.h as int, d.capture_h, d.desk_h);
    assert(d.dx(i) * d.capture_w >= 0) by (nonlinear_arith)
        requires
            d.dx(i) >= 0,
            d.capture_w >= 0,
    ;
    assert(d.dy(i) * d.capture_h >= 0) by (nonlinear_arith)
        requires
            d.dy(i) >= 0,
            d.capture_h >= 0,
    ;
    lemma_share(scaled_pixels(m.w as int, d.capture_w, d.desk_w), m.w * d.capture_w, d.desk_w);
    lemma_share(scaled_pixels(m.h as int, d.capture_h, d.desk_h), m.h * d.capture_h, d.desk_h);
    assert(2 * m.w * d.capture_w == 2 * (m.w * d.capture_w)) by (nonlinear_arith);
    assert(2 * m.h * d.capture_h == 2 * (m.h * d.capture_h)) by (nonlinear_arith);
}

/// A rounded quotient of at most one belongs to a dividend of at most one and a
/// half divisors.
proof fn lemma_share(q: int, a: int, b: int)
    requires
        b > 0 ==> -b <= 2 * (a - b * q) <= b,
    ensures
        b > 0 && q <= 1 ==> 2 * a <= 3 * b,
{
    if b > 0 && q <= 1 {
        assert(b * q <= b) by (nonlinear_arith)
            requires
                b > 0,
                q <= 1,
        ;
    }
}

/// A monitor holds a selection exactly if it holds the selection's centre, which is
/// not before the monitor's left and upper edges and before its right and lower
/// ones. All of these are compared at the scale of the capture.
pub proof fn law_monitor_holds_the_centre(d: DesktopView, i: int, sel: SelectionRect)
    requires
        d.wf(),
        0 <= i < d.monitors.len(),
        d.desk_w > 0,
        d.desk_h > 0,
    ensures
        ({
            let m = d.monitors[i];
            let left = m.x - leftmost(d.monitors);
            let top = m.y - topmost(d.monitors);
            let w = rightmost(d.monitors) - leftmost(d.monitors);
            let h = bottommost(d.monitors) - topmost(d.monitors);
            let x = (2 * sel.x + sel.w) * w;
            let y = (2 * sel.y + sel.h) * h;
            d.holds(i, sel) <==> {
                &&& 2048 * left * d.capture_w <= x
                &&& x < 2048 * (left + m.w) * d.capture_w
                &&& 2048 * top * d.capture_h <= y
                &&& y < 2048 * (top + m.h) * d.capture_h
            }
        }),
{
}

/// Without a scale, a monitor holds the selections whose centre lies on it.
pub proof fn law_monitor_holds_the_centre_unscaled(d: DesktopView, i: int, sel: SelectionRect)
    requires
        d.wf(),
        0 <= i < d.monitors.len(),
        d.capture_w == d.desk_w || d.desk_w <= 0,
        d.capture_h == d.desk_h || d.desk_h <= 0,
    ensures
        ({
            let m = d.monitors[i];
            let left = m.x - leftmost(d.monitors);
            let top = m.y - topmost(d.monitors);
            d.holds(i, sel) <==> {
                &&& 2048 * left <= 2 * sel.x + sel.w
                &&& 2 * sel.x + sel.w < 2048 * (left + m.w)
                &&& 2048 * top <= 2 * sel.y + sel.h
                &&& 2 * sel.y + sel.h < 2048 * (top + m.h)
            }
        }),
{
    let m = d.monitors[i];
    let cx = 2 * sel.x + sel.w;
    let cy = 2 * sel.y + sel.h;
    lemma_same_scale(cx, d.dx(i), d.capture_w, d.desk_w);
    lemma_same_scale(cx, d.dx(i) + m.w, d.capture_w, d.desk_w);
    lemma_same_scale(cy, d.dy(i), d.capture_h, d.desk_h);
    lemma_same_scale(cy, d.dy(i) + m.h, d.capture_h, d.desk_h);
}

proof fn lemma_same_scale(c: int, d: int, capture: int, desk: int)
    requires
        capture == desk || desk <= 0,
    ensures
        at_or_past(c, d, capture, desk) <==> c >= 2048 * d,
{
    if desk > 0 {
        assert(c * desk >= 2 * d * UNIT * desk <==> c >= 2048 * d) by (nonlinear_arith)
            requires
                desk > 0,
                UNIT == 1024,
        ;
    }
}

/// Where no monitor holds the centre of the selection, the toolbar goes to the
/// first monitor.
pub proof fn law_toolbar_falls_back(d: DesktopView, sel: SelectionRect)
    requires
        forall|i: int| 0 <= i < d.monitors.len() ==> !d.holds(i, sel),
    ensures
        d.host_from(0, sel) == 0,
{
    lemma_no_host(d, sel, 0);
}

proof fn lemma_no_host(d: DesktopView, sel: SelectionRect, from: int)
    requires
        0 <= from,
        forall|i: int| 0 <= i < d.monitors.len() ==> !d.holds(i, sel),
    ensures
        d.host_from(from, sel) == 0,
    decreases d.monitors.len() - from,
{
    if from < d.monitors.len() {
        lemma_no_host(d, sel, from + 1);
    }
}

/// The toolbar, 52 pixels high, stands four pixels below the selection where it
/// ends on the screen there. Elsewhere it stands four pixels above, but not above
/// the screen.
pub proof fn law_toolbar_distance(sel: SelectionRect, screen_h: int)
    ensures
        ({
            let top = toolbar_top(sel, screen_h);
            let lower = sel.y + sel.h;
            &&& lower + 57344 <= screen_h ==> top == lower + 4096
            &&& lower + 57344 > screen_h && sel.y >= 57344 ==> top + 53248 + 4096 == sel.y
            &&& lower + 57344 > screen_h && sel.y < 57344 ==> top == 0
        }),
{
}

/// The monitors have a bounding box exactly if every right and lower edge, every
/// distance from the box's corner and the box's sides are machine integers.
pub proof fn law_spans_fit(ms: Seq<MonitorGeom>)
    requires
        ms.len() > 0,
    ensures
        spans_fit(ms) <==> {
            &&& forall|i: int|
                0 <= i < ms.len() ==> {
                    &&& -0x8000_0000 <= (#[trigger] ms[i]).x + ms[i].w <= 0x7FFF_FFFF
                    &&& -0x8000_0000 <= ms[i].y + ms[i].h <= 0x7FFF_FFFF
                    &&& ms[i].x - leftmost(ms) <= 0x7FFF_FFFF
                    &&& ms[i].y - topmost(ms) <= 0x7FFF_FFFF
                }
            &&& -0x8000_0000 <= rightmost(ms) - leftmost(ms) <= 0x7FFF_FFFF
            &&& -0x8000_0000 <= bottommost(ms) - topmost(ms) <= 0x7FFF_FFFF
        },
{
    law_bounds_are_tight(ms);
}

} // verus!
