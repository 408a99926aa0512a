//! Fixed-point screen coordinates.

use vstd::prelude::*;

verus! {

/// Coordinate units per pixel.
pub const UNIT: i64 = 1024;

/// Bound on the magnitude of the coordinates that the geometry accepts. It
/// keeps every sum and difference of three of them inside an `i64`.
pub const LIMIT: i64 = 0x1000_0000_0000_0000;

/// Bound on what a pointer event reports, as a position or as an offset:
/// sixteen million pixels.
pub const REACH: i64 = 0x4_0000_0000;

/// A point, or an offset between two points.
#[derive(Debug, Clone, Copy, PartialEq, Eq, Structural)]
pub struct Point {
    pub x: i64,
    pub y: i64,
}

impl Point {
    /// Both coordinates are within `k` of zero.
    pub open spec fn within(self, k: int) -> bool {
        &&& -k <= self.x <= k
        &&& -k <= self.y <= k
    }
}

/// The smaller of two integers.
pub open spec fn least(a: int, b: int) -> int {
    if a <= b {
        a
    } else {
        b
    }
}

/// The larger of two integers.
pub open spec fn greatest(a: int, b: int) -> int {
    if a <= b {
        b
    } else {
        a
    }
}

/// The distance of an integer from zero.
pub open spec fn magnitude(a: int) -> int {
    if a < 0 {
        -a
    } else {
        a
    }
}

/// The member of the range `lo ..= hi` that is closest to `a`.
pub open spec fn clamped(a: int, lo: int, hi: int) -> int {
    greatest(lo, least(a, hi))
}

/// The whole pixels in a coordinate, rounded towards zero.
pub open spec fn whole(a: int) -> int {
    if a < 0 {
        -((-a) / (UNIT as int))
    } else {
        a / (UNIT as int)
    }
}

/// The quotient of `a` by a positive `b`, rounded to the nearest integer, ties
/// away from zero.
pub open spec fn nearest(a: int, b: int) -> int {
    if a < 0 {
        -((2 * -a + b) / (2 * b))
    } else {
        (2 * a + b) / (2 * b)
    }
}

/// The whole pixels in a length, ties rounded to the even neighbour.
pub open spec fn even_pixels(a: int) -> int {
    let q = a / (UNIT as int);
    let r = a % (UNIT as int);
    if 2 * r > UNIT || (2 * r == UNIT && q % 2 == 1) {
        q + 1
    } else {
        q
    }
}

pub fn min_of(a: i64, b: i64) -> (r: i64)
    ensures
        r == least(a as int, b as int),
{
    if a <= b {
        a
    } else {
        b
    }
}

pub fn max_of(a: i64, b: i64) -> (r: i64)
    ensures
        r == greatest(a as int, b as int),
{
    if a <= b {
        b
    } else {
        a
    }
}

pub fn abs_of(a: i64) -> (r: i64)
    requires
        a > i64::MIN,
    ensures
        r == magnitude(a as int),
{
    if a < 0 {
        -a
    } else {
        a
    }
}

pub fn clamp_of(a: i64, lo: i64, hi: i64) -> (r: i64)
    ensures
        r == clamped(a as int, lo as int, hi as int),
{
    max_of(lo, min_of(a, hi))
}

/// Drops the fraction of a pixel.
pub fn to_pixels(a: i64) -> (r: i32)
    requires
        -0x8000_0000 * UNIT <= a < 0x8000_0000 * UNIT,
    ensures
        r == whole(a as int),
{
    if a < 0 {
        let n: i64 = (-a) / UNIT;
        (-n) as i32
    } else {
        (a / UNIT) as i32
    }
}

/// Rounds a non-negative length to whole pixels, ties to the even neighbour,
/// as a read-out without decimals shows it.
pub fn to_even_pixels(a: i64) -> (r: u64)
    requires
        a >= 0,
    ensures
        r == even_pixels(a as int),
{
    let q: i64 = a / UNIT;
    let r: i64 = a % UNIT;
    if 2 * r > UNIT || (2 * r == UNIT && q % 2 == 1) {
        (q + 1) as u64
    } else {
        q as u64
    }
}

/// Divides by a positive number and rounds to the nearest integer, ties away
/// from zero.
pub fn divide_nearest(a: i64, b: i64) -> (r: i64)
    requires
        -LIMIT <= a <= LIMIT,
        0 < b <= LIMIT,
    ensures
        r == nearest(a as int, b as int),
{
    if a < 0 {
        let n: i64 = (2 * (-a) + b) / (2 * b);
        -n
    } else {
        (2 * a + b) / (2 * b)
    }
}

/// Of two numbers one is the smaller, the other the larger, and each is one of
/// the two.
pub proof fn law_least_and_greatest(a: int, b: int)
    ensures
        least(a, b) <= a && least(a, b) <= b,
        a <= greatest(a, b) && b <= greatest(a, b),
        least(a, b) == a || least(a, b) == b,
        least(a, b) + greatest(a, b) == a + b,
{
}

/// A magnitude is not negative, and is the number or its negative.
pub proof fn law_magnitude(a: int)
    ensures
        a >= 0 ==> magnitude(a) == a,
        a <= 0 ==> magnitude(a) == -a,
{
}

/// Clamping leaves what is in the range alone, and takes the rest to the nearer
/// end.
pub proof fn law_clamped(a: int, lo: int, hi: int)
    requires
        lo <= hi,
    ensures
        lo <= a <= hi ==> clamped(a, lo, hi) == a,
        a <= lo ==> clamped(a, lo, hi) == lo,
        a >= hi ==> clamped(a, lo, hi) == hi,
{
}

/// A pixel is 1024 units. The whole pixels in a coordinate leave less than one
/// pixel over, on the side away from zero.
pub proof fn law_whole(a: int)
    ensures
        a >= 0 ==> 0 <= a - 1024 * whole(a) < 1024,
        a <= 0 ==> -1024 < a - 1024 * whole(a) <= 0,
        whole(-a) == -whole(a),
{
}

/// A rounded quotient is at most half a divisor off, and of two that are equally
/// near it is the one further from zero.
pub proof fn law_nearest(a: int, b: int)
    requires
        b > 0,
    ensures
        a >= 0 ==> -b <= 2 * (a - b * nearest(a, b)) < b,
        a <= 0 ==> -b < 2 * (a - b * nearest(a, b)) <= b,
{
    let m = magnitude(a);
    let q = (2 * m + b) / (2 * b);
    assert(-b <= 2 * (m - b * q) < b) by (nonlinear_arith)
        requires
            b > 0,
            q == (2 * m + b) / (2 * b),
    ;
    if a < 0 {
        assert(nearest(a, b) == -q);
        assert(b * -q == -(b * q)) by (nonlinear_arith);
    } else if a == 0 {
        assert(b / (2 * b) == 0) by (nonlinear_arith)
            requires
                b > 0,
        ;
    }
}

/// A length in whole pixels is at most half a pixel off, and of two that are
/// equally near it is the even one.
pub proof fn law_even_pixels(a: int)
    requires
        a >= 0,
    ensures
        -512 <= a - 1024 * even_pixels(a) <= 512,
        a - 1024 * even_pixels(a) == 512 || a - 1024 * even_pixels(a) == -512 ==> even_pixels(a) % 2
            == 0,
{
}

/// The count is the number of whole pixels in a coordinate, without the fraction.
pub open spec fn counts_pixels(n: int, v: int) -> bool {
    if v >= 0 {
        1024 * n <= v < 1024 * n + 1024
    } else {
        1024 * n - 1024 < v <= 1024 * n
    }
}

/// A coordinate has one number of whole pixels.
pub proof fn law_one_count_of_pixels(n: int, v: int)
    ensures
        counts_pixels(n, v) <==> whole(v) == n,
{
}

} // verus!
