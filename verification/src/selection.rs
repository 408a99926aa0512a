//! The selected rectangle and the handles that resize it.

use crate::units::{self, abs_of, max_of, min_of, Point, LIMIT, UNIT};
use vstd::prelude::*;

verus! {

/// Sides shorter than this make a selection too small to keep.
pub const TRIVIAL: i64 = 3072;

/// How close to an edge the pointer has to be to grab it.
pub const HANDLE_HIT: i64 = 8192;

/// A rectangle in capture coordinates.
#[derive(Debug, Clone, Copy, PartialEq, Eq, Structural)]
pub struct SelectionRect {
    pub x: i64,
    pub y: i64,
    pub w: i64,
    pub h: i64,
}

impl SelectionRect {
    /// Every field is small enough for the geometry below.
    pub open spec fn measurable(self) -> bool {
        &&& -LIMIT <= self.x <= LIMIT
        &&& -LIMIT <= self.y <= LIMIT
        &&& -LIMIT <= self.w <= LIMIT
        &&& -LIMIT <= self.h <= LIMIT
    }

    /// The sides are not negative.
    pub open spec fn upright(self) -> bool {
        self.w >= 0 && self.h >= 0
    }

    pub open spec fn right(self) -> int {
        self.x + self.w
    }

    pub open spec fn bottom(self) -> int {
        self.y + self.h
    }

    /// A side is shorter than three pixels.
    pub open spec fn trivial(self) -> bool {
        self.w < TRIVIAL || self.h < TRIVIAL
    }

    /// The point lies in the rectangle or on its border.
    pub open spec fn covers(self, p: Point) -> bool {
        &&& self.x <= p.x <= self.right()
        &&& self.y <= p.y <= self.bottom()
    }

    /// The point lies in the rectangle and off its border.
    pub open spec fn encloses(self, p: Point) -> bool {
        &&& self.x < p.x < self.right()
        &&& self.y < p.y < self.bottom()
    }

    /// The rectangle as seen from `origin`.
    pub open spec fn seen_from(self, origin: Point) -> SelectionRect {
        SelectionRect {
            x: (self.x - origin.x) as i64,
            y: (self.y - origin.y) as i64,
            w: self.w,
            h: self.h,
        }
    }

    /// The upright rectangle that has `a` and `b` as opposite corners.
    pub open spec fn spanning(a: Point, b: Point) -> SelectionRect {
        SelectionRect {
            x: units::least(a.x as int, b.x as int) as i64,
            y: units::least(a.y as int, b.y as int) as i64,
            w: units::magnitude(b.x - a.x) as i64,
            h: units::magnitude(b.y - a.y) as i64,
        }
    }

    /// The empty rectangle at the origin.
    pub fn empty() -> (r: SelectionRect)
        ensures
            r == (SelectionRect { x: 0, y: 0, w: 0, h: 0 }),
    {
        SelectionRect { x: 0, y: 0, w: 0, h: 0 }
    }

    pub fn is_trivial(&self) -> (r: bool)
        ensures
            r == self.trivial(),
    {
        self.w < TRIVIAL || self.h < TRIVIAL
    }

    pub fn contains(&self, px: i64, py: i64) -> (r: bool)
        requires
            self.measurable(),
        ensures
            r == self.covers(Point { x: px, y: py }),
    {
        px >= self.x && px <= self.x + self.w && py >= self.y && py <= self.y + self.h
    }

    /// Translates into the coordinate system whose origin is given.
    pub fn to_local(&self, origin: Point) -> (r: SelectionRect)
        requires
            self.measurable(),
            origin.within(LIMIT as int),
        ensures
            r == self.seen_from(origin),
            r.x == self.x - origin.x,
            r.y == self.y - origin.y,
    {
        SelectionRect { x: self.x - origin.x, y: self.y - origin.y, w: self.w, h: self.h }
    }

    /// The upright rectangle with the given opposite corners.
    pub fn between(a: Point, b: Point) -> (r: SelectionRect)
        requires
            a.within(2 * LIMIT),
            b.within(2 * LIMIT),
        ensures
            r == SelectionRect::spanning(a, b),
            r.upright(),
            r.x == units::least(a.x as int, b.x as int),
            r.y == units::least(a.y as int, b.y as int),
            r.right() == units::greatest(a.x as int, b.x as int),
            r.bottom() == units::greatest(a.y as int, b.y as int),
    {
        SelectionRect {
            x: min_of(a.x, b.x),
            y: min_of(a.y, b.y),
            w: abs_of(b.x - a.x),
            h: abs_of(b.y - a.y),
        }
    }
}

impl Default for SelectionRect {
    fn default() -> (r: SelectionRect)
        ensures
            r == (SelectionRect { x: 0, y: 0, w: 0, h: 0 }),
    {
        SelectionRect::empty()
    }
}

/// The corners and edges by which a selection is resized.
#[derive(Debug, Clone, Copy, PartialEq, Eq, Structural)]
pub enum Handle {
    TopLeft,
    Top,
    TopRight,
    Right,
    BottomRight,
    Bottom,
    BottomLeft,
    Left,
}

impl Handle {
    /// The handle moves the left edge.
    pub open spec fn moves_left(self) -> bool {
        self is TopLeft || self is Left || self is BottomLeft
    }

    /// The handle moves the right edge.
    pub open spec fn moves_right(self) -> bool {
        self is TopRight || self is Right || self is BottomRight
    }

    /// The handle moves the top edge.
    pub open spec fn moves_top(self) -> bool {
        self is TopLeft || self is Top || self is TopRight
    }

    /// The handle moves the bottom edge.
    pub open spec fn moves_bottom(self) -> bool {
        self is BottomLeft || self is Bottom || self is BottomRight
    }
}

/// What a pointer position means for a selection.
#[derive(Debug, Clone, Copy, PartialEq, Eq, Structural)]
pub enum Hit {
    Edge(Handle),
    Inside,
    Outside,
}

/// `a` is close enough to the line at `edge` to grab it.
pub open spec fn near(a: int, edge: int) -> bool {
    edge - HANDLE_HIT < a < edge + HANDLE_HIT
}

/// `a` lies between `lo` and `hi`, or no further than a grab away.
pub open spec fn along(a: int, lo: int, hi: int) -> bool {
    lo - HANDLE_HIT <= a <= hi + HANDLE_HIT
}

/// Corners come before edges, edges before the inside. Of two corners the
/// first in the order top left, top right, bottom right, bottom left counts,
/// of two edges the first in the order top, bottom, left, right.
pub open spec fn hit_at(sel: SelectionRect, p: Point) -> Hit {
    let l = near(p.x as int, sel.x as int);
    let r = near(p.x as int, sel.right());
    let t = near(p.y as int, sel.y as int);
    let b = near(p.y as int, sel.bottom());
    let h = along(p.x as int, sel.x as int, sel.right());
    let v = along(p.y as int, sel.y as int, sel.bottom());
    if l && t {
        Hit::Edge(Handle::TopLeft)
    } else if r && t {
        Hit::Edge(Handle::TopRight)
    } else if r && b {
        Hit::Edge(Handle::BottomRight)
    } else if l && b {
        Hit::Edge(Handle::BottomLeft)
    } else if h && t {
        Hit::Edge(Handle::Top)
    } else if h && b {
        Hit::Edge(Handle::Bottom)
    } else if v && l {
        Hit::Edge(Handle::Left)
    } else if v && r {
        Hit::Edge(Handle::Right)
    } else if sel.encloses(p) {
        Hit::Inside
    } else {
        Hit::Outside
    }
}

/// Finds what lies under the pointer.
pub fn hit_test(sel: &SelectionRect, x: i64, y: i64) -> (r: Hit)
    requires
        sel.measurable(),
        -LIMIT <= x <= LIMIT,
        -LIMIT <= y <= LIMIT,
    ensures
        r == hit_at(*sel, Point { x, y }),
{
    let left: i64 = sel.x;
    let right: i64 = sel.x + sel.w;
    let top: i64 = sel.y;
    let bottom: i64 = sel.y + sel.h;
    let hs: i64 = HANDLE_HIT;

    let near_l: bool = abs_of(x - left) < hs;
    let near_r: bool = abs_of(x - right) < hs;
    let near_t: bool = abs_of(y - top) < hs;
    let near_b: bool = abs_of(y - bottom) < hs;
    if near_l && near_t {
        return Hit::Edge(Handle::TopLeft);
    }
    if near_r && near_t {
        return Hit::Edge(Handle::TopRight);
    }
    if near_r && near_b {
        return Hit::Edge(Handle::BottomRight);
    }
    if near_l && near_b {
        return Hit::Edge(Handle::BottomLeft);
    }
    if x >= left - hs && x <= right + hs && near_t {
        return Hit::Edge(Handle::Top);
    }
    if x >= left - hs && x <= right + hs && near_b {
        return Hit::Edge(Handle::Bottom);
    }
    if y >= top - hs && y <= bottom + hs && near_l {
        return Hit::Edge(Handle::Left);
    }
    if y >= top - hs && y <= bottom + hs && near_r {
        return Hit::Edge(Handle::Right);
    }
    if x > left && x < right && y > top && y < bottom {
        return Hit::Inside;
    }
    Hit::Outside
}

/// The rectangle whose edges are those of `orig`, except that the edges which
/// the handle moves go through `p`. An edge dragged across its opposite turns
/// the rectangle over, so the result is upright.
pub open spec fn resized(orig: SelectionRect, handle: Handle, p: Point) -> SelectionRect {
    let x0 = if handle.moves_left() { p.x as int } else { orig.x as int };
    let x1 = if handle.moves_right() { p.x as int } else { orig.right() };
    let y0 = if handle.moves_top() { p.y as int } else { orig.y as int };
    let y1 = if handle.moves_bottom() { p.y as int } else { orig.bottom() };
    SelectionRect {
        x: units::least(x0, x1) as i64,
        y: units::least(y0, y1) as i64,
        w: units::magnitude(x1 - x0) as i64,
        h: units::magnitude(y1 - y0) as i64,
    }
}

/// Drags a handle of the rectangle to a point.
pub fn resize_rect(orig: &SelectionRect, handle: Handle, px: i64, py: i64) -> (r: SelectionRect)
    requires
        orig.measurable(),
        -LIMIT <= px <= LIMIT,
        -LIMIT <= py <= LIMIT,
    ensures
        r == resized(*orig, handle, Point { x: px, y: py }),
        r.upright(),
{
    let mut x0: i64 = orig.x;
    let mut y0: i64 = orig.y;
    let mut x1: i64 = orig.x + orig.w;
    let mut y1: i64 = orig.y + orig.h;
    match handle {
        Handle::TopLeft => {
            x0 = px;
            y0 = py;
        },
        Handle::Top => {
            y0 = py;
        },
        Handle::TopRight => {
            x1 = px;
            y0 = py;
        },
        Handle::Right => {
            x1 = px;
        },
        Handle::BottomRight => {
            x1 = px;
            y1 = py;
        },
        Handle::Bottom => {
            y1 = py;
        },
        Handle::BottomLeft => {
            x0 = px;
            y1 = py;
        },
        Handle::Left => {
            x0 = px;
        },
    }
    SelectionRect::between(Point { x: x0, y: y0 }, Point { x: x1, y: y1 })
}

/// The rectangle that starts at `start` and reaches as far as the drag went.
pub open spec fn rubber_band(start: Point, offset: Point) -> SelectionRect {
    SelectionRect {
        x: units::least(start.x as int, start.x + offset.x) as i64,
        y: units::least(start.y as int, start.y + offset.y) as i64,
        w: units::magnitude(offset.x as int) as i64,
        h: units::magnitude(offset.y as int) as i64,
    }
}

/// Selects what a drag from `start` has swept over.
pub fn select_dragged(start: Point, offset: Point) -> (r: SelectionRect)
    requires
        start.within(LIMIT as int),
        offset.within(LIMIT as int),
    ensures
        r == rubber_band(start, offset),
        r.upright(),
{
    SelectionRect {
        x: min_of(start.x, start.x + offset.x),
        y: min_of(start.y, start.y + offset.y),
        w: abs_of(offset.x),
        h: abs_of(offset.y),
    }
}

/// `orig` shifted by `offset` and pushed back onto the screen. A rectangle
/// wider or higher than the screen is put at its left or upper edge.
pub open spec fn shifted(
    orig: SelectionRect,
    offset: Point,
    screen_w: i64,
    screen_h: i64,
) -> SelectionRect {
    SelectionRect {
        x: units::clamped(
            orig.x + offset.x,
            0,
            units::greatest(screen_w - orig.w, 0),
        ) as i64,
        y: units::clamped(
            orig.y + offset.y,
            0,
            units::greatest(screen_h - orig.h, 0),
        ) as i64,
        w: orig.w,
        h: orig.h,
    }
}

/// Moves the rectangle and keeps it on the screen.
pub fn move_rect(orig: &SelectionRect, offset: Point, screen_w: i64, screen_h: i64) -> (r:
    SelectionRect)
    requires
        orig.measurable(),
        offset.within(LIMIT as int),
        0 <= screen_w <= LIMIT,
        0 <= screen_h <= LIMIT,
    ensures
        r == shifted(*orig, offset, screen_w, screen_h),
{
    let nx: i64 = units::clamp_of(orig.x + offset.x, 0, max_of(screen_w - orig.w, 0));
    let ny: i64 = units::clamp_of(orig.y + offset.y, 0, max_of(screen_h - orig.h, 0));
    SelectionRect { x: nx, y: ny, w: orig.w, h: orig.h }
}

/// `r` with its origin pushed right and down onto the screen, then with its
/// sides cut where they leave the screen.
pub open spec fn trimmed(r: SelectionRect, screen_w: i64, screen_h: i64) -> SelectionRect {
    let x = units::greatest(r.x as int, 0);
    let y = units::greatest(r.y as int, 0);
    SelectionRect {
        x: x as i64,
        y: y as i64,
        w: (if x + r.w > screen_w { units::greatest(screen_w - x, 0) } else { r.w as int }) as i64,
        h: (if y + r.h > screen_h { units::greatest(screen_h - y, 0) } else { r.h as int }) as i64,
    }
}

/// Cuts the rectangle where it leaves the screen.
pub fn trim_rect(r: &SelectionRect, screen_w: i64, screen_h: i64) -> (t: SelectionRect)
    requires
        -3 * LIMIT <= r.x <= 3 * LIMIT,
        -3 * LIMIT <= r.y <= 3 * LIMIT,
        0 <= r.w <= 3 * LIMIT,
        0 <= r.h <= 3 * LIMIT,
        0 <= screen_w <= LIMIT,
        0 <= screen_h <= LIMIT,
    ensures
        t == trimmed(*r, screen_w, screen_h),
        t.upright(),
{
    let x: i64 = max_of(r.x, 0);
    let y: i64 = max_of(r.y, 0);
    let w: i64 = if x + r.w > screen_w {
        max_of(screen_w - x, 0)
    } else {
        r.w
    };
    let h: i64 = if y + r.h > screen_h {
        max_of(screen_h - y, 0)
    } else {
        r.h
    };
    SelectionRect { x, y, w, h }
}

/// A drag selects the same rectangle in either direction: back from where it
/// ended by the opposite offset.
pub proof fn law_drag_direction(start: Point, offset: Point)
    requires
        start.within(LIMIT as int),
        offset.within(LIMIT as int),
    ensures
        rubber_band(
            Point { x: (start.x + offset.x) as i64, y: (start.y + offset.y) as i64 },
            Point { x: (-offset.x) as i64, y: (-offset.y) as i64 },
        ) == rubber_band(start, offset),
{
}

/// A drag selection covers the point it started at and the one it ended at.
pub proof fn law_drag_covers_ends(start: Point, offset: Point)
    requires
        start.within(LIMIT as int),
        offset.within(LIMIT as int),
    ensures
        rubber_band(start, offset).covers(start),
        rubber_band(start, offset).covers(
            Point { x: (start.x + offset.x) as i64, y: (start.y + offset.y) as i64 },
        ),
{
}

/// Moving keeps the size, and a rectangle that fits on the screen stays on it.
pub proof fn law_move_stays_on_screen(
    orig: SelectionRect,
    offset: Point,
    screen_w: i64,
    screen_h: i64,
)
    requires
        orig.measurable(),
        orig.upright(),
        offset.within(LIMIT as int),
        0 <= screen_w <= LIMIT,
        0 <= screen_h <= LIMIT,
    ensures
        ({
            let r = shifted(orig, offset, screen_w, screen_h);
            &&& r.w == orig.w && r.h == orig.h
            &&& r.x >= 0 && r.y >= 0
            &&& orig.w <= screen_w ==> r.right() <= screen_w
            &&& orig.h <= screen_h ==> r.bottom() <= screen_h
        }),
{
}

/// A move that already ends on the screen goes exactly as far as the drag.
pub proof fn law_move_is_exact_on_screen(
    orig: SelectionRect,
    offset: Point,
    screen_w: i64,
    screen_h: i64,
)
    requires
        orig.measurable(),
        offset.within(LIMIT as int),
        0 <= screen_w <= LIMIT,
        0 <= screen_h <= LIMIT,
        0 <= orig.x + offset.x <= screen_w - orig.w,
        0 <= orig.y + offset.y <= screen_h - orig.h,
    ensures
        shifted(orig, offset, screen_w, screen_h).x == orig.x + offset.x,
        shifted(orig, offset, screen_w, screen_h).y == orig.y + offset.y,
{
}

/// Resizing leaves the edges alone that the handle does not move, unless the
/// moved edge is dragged across them.
pub proof fn law_resize_keeps_opposite_edges(orig: SelectionRect, handle: Handle, p: Point)
    requires
        orig.measurable(),
        orig.upright(),
        p.within(LIMIT as int),
    ensures
        ({
            let r = resized(orig, handle, p);
            &&& !handle.moves_left() && !handle.moves_right() ==> r.x == orig.x && r.w == orig.w
            &&& !handle.moves_top() && !handle.moves_bottom() ==> r.y == orig.y && r.h == orig.h
            &&& handle.moves_left() && p.x <= orig.right() ==> r.x == p.x && r.right()
                == orig.right()
            &&& handle.moves_left() && p.x > orig.right() ==> r.x == orig.right() && r.right()
                == p.x
            &&& handle.moves_right() && p.x >= orig.x ==> r.x == orig.x && r.right() == p.x
            &&& handle.moves_right() && p.x < orig.x ==> r.x == p.x && r.right() == orig.x
            &&& handle.moves_top() && p.y <= orig.bottom() ==> r.y == p.y && r.bottom()
                == orig.bottom()
            &&& handle.moves_top() && p.y > orig.bottom() ==> r.y == orig.bottom() && r.bottom()
                == p.y
            &&& handle.moves_bottom() && p.y >= orig.y ==> r.y == orig.y && r.bottom() == p.y
            &&& handle.moves_bottom() && p.y < orig.y ==> r.y == p.y && r.bottom() == orig.y
        }),
{
}

/// Dropping a handle where it already is changes nothing.
pub proof fn law_resize_in_place(orig: SelectionRect, handle: Handle, p: Point)
    requires
        orig.measurable(),
        orig.upright(),
        p.within(LIMIT as int),
        handle.moves_left() ==> p.x == orig.x,
        handle.moves_right() ==> p.x == orig.right(),
        handle.moves_top() ==> p.y == orig.y,
        handle.moves_bottom() ==> p.y == orig.bottom(),
    ensures
        resized(orig, handle, p) == orig,
{
}

/// What a resize leaves starts on the screen, and a side ends on it wherever
/// its origin does.
pub proof fn law_trim_stays_on_screen(r: SelectionRect, screen_w: i64, screen_h: i64)
    requires
        -3 * LIMIT <= r.x <= 3 * LIMIT,
        -3 * LIMIT <= r.y <= 3 * LIMIT,
        0 <= r.w <= 3 * LIMIT,
        0 <= r.h <= 3 * LIMIT,
        0 <= screen_w <= LIMIT,
        0 <= screen_h <= LIMIT,
    ensures
        ({
            let t = trimmed(r, screen_w, screen_h);
            &&& t.x >= 0 && t.y >= 0 && t.w >= 0 && t.h >= 0
            &&& t.w <= screen_w && t.h <= screen_h
            &&& t.x <= screen_w ==> t.right() <= screen_w
            &&& t.y <= screen_h ==> t.bottom() <= screen_h
        }),
{
}

/// An edge is only grabbed from nearby: each coordinate that the handle moves
/// is close to the edge it moves.
pub proof fn law_grab_is_close(sel: SelectionRect, p: Point)
    requires
        sel.measurable(),
        p.within(LIMIT as int),
    ensures
        hit_at(sel, p) matches Hit::Edge(h) ==> {
            &&& h.moves_left() ==> near(p.x as int, sel.x as int)
            &&& h.moves_right() ==> near(p.x as int, sel.right())
            &&& h.moves_top() ==> near(p.y as int, sel.y as int)
            &&& h.moves_bottom() ==> near(p.y as int, sel.bottom())
        },
{
}

/// A point well inside the selection moves it, and a point that is not even
/// near it starts over.
pub proof fn law_inside_and_outside(sel: SelectionRect, p: Point)
    requires
        sel.measurable(),
        p.within(LIMIT as int),
    ensures
        hit_at(sel, p) is Inside ==> sel.encloses(p),
        sel.encloses(p) ==> !(hit_at(sel, p) is Outside),
        sel.x + HANDLE_HIT <= p.x <= sel.right() - HANDLE_HIT && sel.y + HANDLE_HIT <= p.y
            <= sel.bottom() - HANDLE_HIT ==> hit_at(sel, p) is Inside,
        !along(p.x as int, sel.x as int, sel.right()) || !along(
            p.y as int,
            sel.y as int,
            sel.bottom(),
        ) ==> !sel.upright() || hit_at(sel, p) is Outside,
{
}

/// Going to a monitor's coordinates and back changes nothing.
pub proof fn law_local_round_trip(sel: SelectionRect, origin: Point)
    requires
        sel.measurable(),
        origin.within(LIMIT as int),
    ensures
        sel.seen_from(origin).seen_from(
            Point { x: (-origin.x) as i64, y: (-origin.y) as i64 },
        ) == sel,
{
}

/// A drag selection is the tight rectangle between its ends: its edges are the
/// lesser and the greater of the coordinates that it started and ended at, and
/// its sides are as long as the drag.
pub proof fn law_drag_is_tight(start: Point, offset: Point)
    requires
        start.within(LIMIT as int),
        offset.within(LIMIT as int),
    ensures
        ({
            let r = rubber_band(start, offset);
            &&& offset.x >= 0 ==> r.x == start.x && r.w == offset.x
            &&& offset.x <= 0 ==> r.x == start.x + offset.x && r.w == -offset.x
            &&& offset.y >= 0 ==> r.y == start.y && r.h == offset.y
            &&& offset.y <= 0 ==> r.y == start.y + offset.y && r.h == -offset.y
        }),
{
}

/// The rectangle between two corners has its edges at their coordinates,
/// whichever comes first.
pub proof fn law_spanning_is_tight(a: Point, b: Point)
    requires
        a.within(2 * LIMIT),
        b.within(2 * LIMIT),
    ensures
        ({
            let r = SelectionRect::spanning(a, b);
            &&& a.x <= b.x ==> r.x == a.x && r.x + r.w == b.x
            &&& b.x <= a.x ==> r.x == b.x && r.x + r.w == a.x
            &&& a.y <= b.y ==> r.y == a.y && r.y + r.h == b.y
            &&& b.y <= a.y ==> r.y == b.y && r.y + r.h == a.y
        }),
{
}

/// A selection is too small to keep exactly if a side is shorter than three
/// pixels.
pub proof fn law_trivial_sides(r: SelectionRect)
    ensures
        r.trivial() <==> r.w < 3 * 1024 || r.h < 3 * 1024,
{
}

/// A rectangle covers what lies between its edges or on them, and encloses what
/// lies between them.
pub proof fn law_between_the_edges(r: SelectionRect, p: Point)
    ensures
        r.covers(p) <==> r.x <= p.x && p.x <= r.x + r.w && r.y <= p.y && p.y <= r.y + r.h,
        r.encloses(p) <==> r.x < p.x && p.x < r.x + r.w && r.y < p.y && p.y < r.y + r.h,
{
}

/// Seen from elsewhere, a rectangle keeps its size, and its corner is as far from
/// there as it is.
pub proof fn law_seen_from(r: SelectionRect, origin: Point)
    requires
        r.measurable(),
        origin.within(LIMIT as int),
    ensures
        r.seen_from(origin).x + origin.x == r.x,
        r.seen_from(origin).y + origin.y == r.y,
        r.seen_from(origin).w == r.w,
        r.seen_from(origin).h == r.h,
{
}

/// Within eight pixels of a corner, both ways, that corner is grabbed. Where
/// several are as near, the upper ones come before the lower ones.
pub proof fn law_corners_are_grabbed(sel: SelectionRect, p: Point)
    requires
        sel.measurable(),
        p.within(LIMIT as int),
    ensures
        ({
            let left = -8192 < p.x - sel.x < 8192;
            let right = -8192 < p.x - (sel.x + sel.w) < 8192;
            let top = -8192 < p.y - sel.y < 8192;
            let bottom = -8192 < p.y - (sel.y + sel.h) < 8192;
            let hit = hit_at(sel, p);
            &&& hit == Hit::Edge(Handle::TopLeft) <==> left && top
            &&& hit == Hit::Edge(Handle::TopRight) <==> right && top && !left
            &&& hit == Hit::Edge(Handle::BottomRight) <==> right && bottom && !top
            &&& hit == Hit::Edge(Handle::BottomLeft) <==> left && bottom && !top && !right
        }),
{
}

/// Away from the corners, an edge is grabbed within eight pixels, along its whole
/// length and as far beyond its ends; the upper and lower edges come before the
/// left and right ones. What is left lies inside or outside.
pub proof fn law_edges_are_grabbed(sel: SelectionRect, p: Point)
    requires
        sel.measurable(),
        p.within(LIMIT as int),
    ensures
        ({
            let left = -8192 < p.x - sel.x < 8192;
            let right = -8192 < p.x - (sel.x + sel.w) < 8192;
            let top = -8192 < p.y - sel.y < 8192;
            let bottom = -8192 < p.y - (sel.y + sel.h) < 8192;
            let beside = sel.x - 8192 <= p.x <= sel.x + sel.w + 8192;
            let level = sel.y - 8192 <= p.y <= sel.y + sel.h + 8192;
            let corner = (left || right) && (top || bottom);
            let hit = hit_at(sel, p);
            &&& hit == Hit::Edge(Handle::Top) <==> !corner && beside && top
            &&& hit == Hit::Edge(Handle::Bottom) <==> !corner && beside && bottom && !top
            &&& hit == Hit::Edge(Handle::Left) <==> !corner && level && left && !(beside && (top
                || bottom))
            &&& hit == Hit::Edge(Handle::Right) <==> !corner && level && right && !left && !(beside
                && (top || bottom))
            &&& !(hit is Edge) ==> (hit is Inside <==> sel.x < p.x < sel.x + sel.w && sel.y < p.y
                < sel.y + sel.h)
        }),
{
}

/// Resizing puts the edges that a handle stands for where the pointer is, and
/// leaves the others: the result lies between the pointer and the opposite edge.
pub proof fn law_resize_goes_to_the_pointer(orig: SelectionRect, handle: Handle, p: Point)
    requires
        orig.measurable(),
        orig.upright(),
        p.within(LIMIT as int),
    ensures
        ({
            let r = resized(orig, handle, p);
            let right = orig.x + orig.w;
            let bottom = orig.y + orig.h;
            let west = handle == Handle::TopLeft || handle == Handle::Left || handle
                == Handle::BottomLeft;
            let east = handle == Handle::TopRight || handle == Handle::Right || handle
                == Handle::BottomRight;
            let north = handle == Handle::TopLeft || handle == Handle::Top || handle
                == Handle::TopRight;
            let south = handle == Handle::BottomLeft || handle == Handle::Bottom || handle
                == Handle::BottomRight;
            &&& west && p.x <= right ==> r.x == p.x && r.x + r.w == right
            &&& west && p.x >= right ==> r.x == right && r.x + r.w == p.x
            &&& east && p.x >= orig.x ==> r.x == orig.x && r.x + r.w == p.x
            &&& east && p.x <= orig.x ==> r.x == p.x && r.x + r.w == orig.x
            &&& !west && !east ==> r.x == orig.x && r.w == orig.w
            &&& north && p.y <= bottom ==> r.y == p.y && r.y + r.h == bottom
            &&& north && p.y >= bottom ==> r.y == bottom && r.y + r.h == p.y
            &&& south && p.y >= orig.y ==> r.y == orig.y && r.y + r.h == p.y
            &&& south && p.y <= orig.y ==> r.y == p.y && r.y + r.h == orig.y
            &&& !north && !south ==> r.y == orig.y && r.h == orig.h
        }),
{
}

/// A move follows the drag until the rectangle meets an edge of the screen, and
/// stops there: at the left and upper edges, or where its far side meets the
/// right and lower ones.
pub proof fn law_move_stops_at_the_edge(
    orig: SelectionRect,
    offset: Point,
    screen_w: i64,
    screen_h: i64,
)
    requires
        orig.measurable(),
        offset.within(LIMIT as int),
        0 <= screen_w <= LIMIT,
        0 <= screen_h <= LIMIT,
    ensures
        ({
            let r = shifted(orig, offset, screen_w, screen_h);
            let x = orig.x + offset.x;
            let y = orig.y + offset.y;
            &&& r.w == orig.w && r.h == orig.h
            &&& x <= 0 || orig.w >= screen_w ==> r.x == 0
            &&& 0 <= x && x + orig.w <= screen_w ==> r.x == x
            &&& 0 <= x && x + orig.w >= screen_w && orig.w <= screen_w ==> r.x + r.w == screen_w
            &&& y <= 0 || orig.h >= screen_h ==> r.y == 0
            &&& 0 <= y && y + orig.h <= screen_h ==> r.y == y
            &&& 0 <= y && y + orig.h >= screen_h && orig.h <= screen_h ==> r.y + r.h == screen_h
        }),
{
}

/// Trimming pushes a corner that lies left of or above the screen onto it, and
/// cuts a side that then leaves the screen where it does. What lies on the screen
/// stays as it is.
pub proof fn law_trim_cuts_at_the_edge(r: SelectionRect, screen_w: i64, screen_h: i64)
    requires
        -3 * LIMIT <= r.x <= 3 * LIMIT,
        -3 * LIMIT <= r.y <= 3 * LIMIT,
        0 <= r.w <= 3 * LIMIT,
        0 <= r.h <= 3 * LIMIT,
        0 <= screen_w <= LIMIT,
        0 <= screen_h <= LIMIT,
    ensures
        ({
            let t = trimmed(r, screen_w, screen_h);
            &&& r.x >= 0 ==> t.x == r.x
            &&& r.x <= 0 ==> t.x == 0
            &&& t.x + r.w <= screen_w ==> t.w == r.w
            &&& t.x + r.w >= screen_w && t.x <= screen_w ==> t.x + t.w == screen_w
            &&& t.x + r.w > screen_w && t.x >= screen_w ==> t.w == 0
            &&& r.y >= 0 ==> t.y == r.y
            &&& r.y <= 0 ==> t.y == 0
            &&& t.y + r.h <= screen_h ==> t.h == r.h
            &&& t.y + r.h >= screen_h && t.y <= screen_h ==> t.y + t.h == screen_h
            &&& t.y + r.h > screen_h && t.y >= screen_h ==> t.h == 0
        }),
{
}

} // verus!
