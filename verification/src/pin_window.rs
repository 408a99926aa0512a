//! Pinned images: borderless windows that can be moved, scaled and closed.

use crate::selector::KEY_ESCAPE;
use crate::units::{self, clamp_of, divide_nearest, to_pixels, Point, REACH, UNIT};
use vstd::prelude::*;

verus! {

/// Zoom factors are in millionths: the image's own size, and the smallest and
/// largest size.
pub const ZOOM_ONE: i64 = 1_000_000;

pub const ZOOM_MIN: i64 = 200_000;

pub const ZOOM_MAX: i64 = 5_000_000;

/// A turn of the wheel, in thousandths of a notch, beyond which the image has its
/// smallest or largest size anyway: a million notches.
const WHEEL_LIMIT: i64 = 1_000_000_000;

/// The zoom factor after the wheel turned by `turn` thousandths of a notch. Each
/// notch towards the user takes a tenth away. The result is rounded to the
/// nearest millionth and kept between a fifth and five times.
pub open spec fn zoomed(zoom: int, turn: int) -> int {
    units::clamped(units::nearest(zoom * (10000 - turn), 10000), ZOOM_MIN as int, ZOOM_MAX as int)
}

/// A margin after the pointer moved by `offset` from where it was pressed: that
/// at the press, and the whole pixels that the pointer moved.
pub open spec fn dragged_margin(margin: int, offset: int) -> int {
    margin + units::whole(offset)
}

/// How a pinned window is moved.
#[derive(Debug, Clone, Copy, PartialEq, Eq, Structural)]
pub enum PinDrag {
    /// By the margins to the screen's edges.
    Margins,
    /// By the compositor.
    Compositor,
}

/// A pinned image's window.
#[derive(Debug)]
pub struct PinWindow {
    zoom: i64,
    margin_left: i32,
    margin_top: i32,
}

impl PinWindow {
    #[verifier::type_invariant]
    spec fn inv(self) -> bool {
        &&& ZOOM_MIN <= self.zoom <= ZOOM_MAX
        &&& -0x4000_0000 <= self.margin_left <= 0x4000_0000
        &&& -0x4000_0000 <= self.margin_top <= 0x4000_0000
    }

    /// The zoom factor.
    pub closed spec fn zoom_factor(self) -> int {
        self.zoom as int
    }

    /// The left and upper margins when the pointer was pressed.
    pub closed spec fn margins(self) -> (int, int) {
        (self.margin_left as int, self.margin_top as int)
    }

    /// A window that shows its image in its own size.
    pub fn new() -> (r: PinWindow)
        ensures
            r.zoom_factor() == ZOOM_ONE,
            r.margins() == (0int, 0int),
    {
        PinWindow { zoom: ZOOM_ONE, margin_left: 0, margin_top: 0 }
    }

    /// How the window is moved: by its margins where the compositor knows layers
    /// and gave the window one, else by the compositor.
    pub fn show(&self, layers_known: bool, has_layer: bool) -> (r: PinDrag)
        ensures
            r == if layers_known && has_layer {
                PinDrag::Margins
            } else {
                PinDrag::Compositor
            },
    {
        if layers_known && has_layer {
            PinDrag::Margins
        } else {
            PinDrag::Compositor
        }
    }

    /// The zoom factor, in millionths.
    pub fn zoom(&self) -> (r: i64)
        ensures
            r == self.zoom_factor(),
            ZOOM_MIN <= r <= ZOOM_MAX,
    {
        proof {
            use_type_invariant(self);
        }
        self.zoom
    }

    /// The wheel turned.
    pub fn scroll(&mut self, turn: i64)
        ensures
            final(self).zoom_factor() == zoomed(old(self).zoom_factor(), turn as int),
            final(self).margins() == old(self).margins(),
    {
        proof {
            use_type_invariant(&*self);
            lemma_far_turn(self.zoom as int, turn as int);
        }
        let cut: i64 = clamp_of(turn, -WHEEL_LIMIT, WHEEL_LIMIT);
        let share: i64 = 10000 - cut;
        let ghost z = self.zoom;
        assert(-5_000_000 * 1_000_010_000 <= z * share <= 5_000_000 * 1_000_010_000)
            by (nonlinear_arith)
            requires
                0 <= z <= 5_000_000,
                -1_000_010_000 <= share <= 1_000_010_000,
        ;
        self.zoom = clamp_of(divide_nearest(self.zoom * share, 10000), ZOOM_MIN, ZOOM_MAX);
    }

    /// The pointer was pressed, when the window had the given margins.
    pub fn drag_begin(&mut self, margin_left: i32, margin_top: i32)
        requires
            -0x4000_0000 <= margin_left <= 0x4000_0000,
            -0x4000_0000 <= margin_top <= 0x4000_0000,
        ensures
            final(self).zoom_factor() == old(self).zoom_factor(),
            final(self).margins() == (margin_left as int, margin_top as int),
    {
        proof {
            use_type_invariant(&*self);
        }
        self.margin_left = margin_left;
        self.margin_top = margin_top;
    }

    /// The pointer moved by `offset` from where it was pressed: the window's new
    /// left and upper margins.
    pub fn drag_update(&self, offset: Point) -> (r: (i32, i32))
        requires
            offset.within(REACH as int),
        ensures
            r.0 == dragged_margin(self.margins().0, offset.x as int),
            r.1 == dragged_margin(self.margins().1, offset.y as int),
    {
        proof {
            use_type_invariant(self);
        }
        (self.margin_left + to_pixels(offset.x), self.margin_top + to_pixels(offset.y))
    }
}

/// Beyond the limit, a turn changes the zoom factor no more than at it.
proof fn lemma_far_turn(zoom: int, turn: int)
    requires
        ZOOM_MIN <= zoom <= ZOOM_MAX,
    ensures
        zoomed(zoom, turn) == zoomed(
            zoom,
            units::clamped(turn, -WHEEL_LIMIT as int, WHEEL_LIMIT as int),
        ),
{
    let a = zoom * (10000 - turn);
    let up = zoom * (10000 + WHEEL_LIMIT);
    let down = zoom * (10000 - WHEEL_LIMIT);
    if turn > WHEEL_LIMIT {
        assert(a <= down <= 0) by (nonlinear_arith)
            requires
                a == zoom * (10000 - turn),
                down == zoom * (10000 - WHEEL_LIMIT),
                turn > WHEEL_LIMIT,
                WHEEL_LIMIT == 1_000_000_000,
                zoom >= 0,
        ;
        assert(units::nearest(a, 10000) <= 0);
        assert(units::nearest(down, 10000) <= 0);
    } else if turn < -WHEEL_LIMIT {
        assert(a >= up >= 5_000_000 * 10000) by (nonlinear_arith)
            requires
                a == zoom * (10000 - turn),
                up == zoom * (10000 + WHEEL_LIMIT),
                turn < -WHEEL_LIMIT,
                WHEEL_LIMIT == 1_000_000_000,
                zoom >= 200_000,
        ;
        assert((2 * a + 10000) / 20000 >= 5_000_000) by (nonlinear_arith)
            requires
                a >= 5_000_000 * 10000,
        ;
        assert((2 * up + 10000) / 20000 >= 5_000_000) by (nonlinear_arith)
            requires
                up >= 5_000_000 * 10000,
        ;
    }
}

/// Whether a key closes the window: Escape, without any modifier.
pub fn closes(key: u32, modifiers: u32) -> (r: bool)
    ensures
        r == (key == KEY_ESCAPE && modifiers == 0),
{
    modifiers == 0 && key == KEY_ESCAPE
}

/// The zoom factor never leaves its range.
pub proof fn law_zoom_stays_in_range(zoom: int, turn: int)
    ensures
        ZOOM_MIN <= zoomed(zoom, turn) <= ZOOM_MAX,
{
}

/// A turn away from the user never shrinks the image and one towards the user
/// never enlarges it.
pub proof fn law_wheel_direction(zoom: int, turn: int)
    requires
        ZOOM_MIN <= zoom <= ZOOM_MAX,
    ensures
        turn < 0 ==> zoomed(zoom, turn) >= zoom,
        turn == 0 ==> zoomed(zoom, turn) == zoom,
        turn > 0 ==> zoomed(zoom, turn) <= zoom,
{
    let a = zoom * (10000 - turn);
    assert(a == zoom * 10000 - zoom * turn) by (nonlinear_arith)
        requires
            a == zoom * (10000 - turn),
    ;
    if turn < 0 {
        assert(zoom * turn <= 0) by (nonlinear_arith)
            requires
                zoom >= 0,
                turn < 0,
        ;
        assert((2 * a + 10000) / 20000 >= zoom);
    } else if turn > 0 {
        assert(zoom * turn >= 0) by (nonlinear_arith)
            requires
                zoom >= 0,
                turn > 0,
        ;
    }
}

/// One notch changes the size by a tenth, as long as it stays in range.
pub proof fn law_one_notch_is_a_tenth(zoom: int)
    requires
        ZOOM_MIN <= zoom <= ZOOM_MAX,
        zoom % 10 == 0,
    ensures
        zoom + zoom / 10 <= ZOOM_MAX ==> zoomed(zoom, -1000) == zoom + zoom / 10,
        zoom - zoom / 10 >= ZOOM_MIN ==> zoomed(zoom, 1000) == zoom - zoom / 10,
{
    let k = zoom / 10;
    assert(zoom == 10 * k);
    let down = zoom * (10000 - 1000);
    let up = zoom * (10000 - (-1000));
    assert(down == k * 90000 && up == k * 110000) by (nonlinear_arith)
        requires
            zoom == 10 * k,
            down == zoom * (10000 - 1000),
            up == zoom * (10000 - (-1000)),
    ;
    assert((2 * down + 10000) / 20000 == 9 * k);
    assert((2 * up + 10000) / 20000 == 11 * k);
}

/// A pinned window follows the pointer: a pointer that has not moved leaves the
/// margin as it was, one that moved by whole pixels moves the window by as many,
/// and the further it went, the further the window goes.
pub proof fn law_window_follows_pointer(margin: int, pixels: int, a: int, b: int)
    ensures
        dragged_margin(margin, 0) == margin,
        dragged_margin(margin, pixels * UNIT) == margin + pixels,
        a <= b ==> dragged_margin(margin, a) <= dragged_margin(margin, b),
{
}

/// The zoom factor is the old one with as many tenths taken away as the wheel
/// turned notches towards the user, to the nearest millionth. It stops at a fifth
/// and at five times.
pub proof fn law_zoom_per_notch(zoom: int, turn: int)
    ensures
        ({
            let z = zoomed(zoom, turn);
            let exact = zoom * (10000 - turn);
            &&& 200_000 < z < 5_000_000 ==> -10000 <= 2 * (exact - 10000 * z) <= 10000
            &&& exact <= 2_000_000_000 ==> z == 200_000
            &&& exact >= 50_000_000_000 ==> z == 5_000_000
            &&& z == 200_000 ==> exact <= 2_000_005_000
            &&& z == 5_000_000 ==> exact >= 49_999_995_000
        }),
{
    units::law_nearest(zoom * (10000 - turn), 10000);
}

/// The margin changes by the whole pixels of the pointer's way, of 1024 coordinate
/// units each, in the direction of the way. The fraction is dropped.
pub proof fn law_margin_moves_by_whole_pixels(margin: int, offset: int)
    ensures
        ({
            let moved = dragged_margin(margin, offset) - margin;
            &&& offset >= 0 ==> 1024 * moved <= offset < 1024 * moved + 1024
            &&& offset <= 0 ==> 1024 * moved - 1024 < offset <= 1024 * moved
        }),
{
    units::law_whole(offset);
}

} // verus!
