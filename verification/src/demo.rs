//! The test image of demo mode.

use crate::desktop::MonitorGeom;
use crate::render::PaintOp;
use crate::tools::Color;
use crate::units::{Point, UNIT};
use vstd::prelude::*;

verus! {

/// The distance of the grid's lines, in pixels.
pub const GRID_STEP: i32 = 80;

/// The size of the test image: that of the first monitor, or 1920 by 1080 pixels
/// without one.
pub fn demo_size(first: Option<MonitorGeom>) -> (r: (i32, i32))
    ensures
        r == (match first {
            Some(m) => (m.w, m.h),
            None => (1920i32, 1080i32),
        }),
{
    match first {
        Some(m) => (m.w, m.h),
        None => (1920, 1080),
    }
}

/// The title of the test image.
pub fn demo_title() -> (r: String)
    ensures
        r@
            == "glint-screenshot demo mode - move mouse for magnifier, drag to select, Esc to quit"@,
{
    "glint-screenshot demo mode - move mouse for magnifier, drag to select, Esc to quit".to_owned()
}

/// The rainbow behind everything, from corner to corner.
pub open spec fn rainbow_ops<'a>(w: int, h: int) -> Seq<PaintOp<'a>> {
    seq![
        PaintOp::GradientStop { at: 0, color: Color(1000, 200, 200, 1000) },
        PaintOp::GradientStop { at: 250, color: Color(900, 900, 200, 1000) },
        PaintOp::GradientStop { at: 500, color: Color(200, 900, 400, 1000) },
        PaintOp::GradientStop { at: 750, color: Color(200, 400, 900, 1000) },
        PaintOp::GradientStop { at: 1000, color: Color(600, 200, 800, 1000) },
        PaintOp::Gradient(Point { x: (w * UNIT) as i64, y: (h * UNIT) as i64 }),
        PaintOp::Source(Color(1000, 1000, 1000, 250)),
        PaintOp::LineWidth(1024),
    ]
}

/// The number of grid lines across a length: one at its start, and one more for
/// each whole step.
pub open spec fn line_count(length: int) -> int {
    if length < 0 {
        0
    } else {
        length / (GRID_STEP as int) + 1
    }
}

/// The first `n` upright grid lines.
pub open spec fn column_ops<'a>(n: int, h: int) -> Seq<PaintOp<'a>>
    decreases n,
{
    if n <= 0 {
        seq![]
    } else {
        let x = ((n - 1) * GRID_STEP * UNIT) as i64;
        column_ops(n - 1, h) + seq![
            PaintOp::MoveTo(Point { x, y: 0 }),
            PaintOp::LineTo(Point { x, y: (h * UNIT) as i64 }),
        ]
    }
}

/// The first `n` level grid lines.
pub open spec fn line_ops<'a>(n: int, w: int) -> Seq<PaintOp<'a>>
    decreases n,
{
    if n <= 0 {
        seq![]
    } else {
        let y = ((n - 1) * GRID_STEP * UNIT) as i64;
        line_ops(n - 1, w) + seq![
            PaintOp::MoveTo(Point { x: 0, y }),
            PaintOp::LineTo(Point { x: (w * UNIT) as i64, y }),
        ]
    }
}

/// The colours of the swatches: the primaries, their mixtures, black and white.
pub open spec fn swatch_color(i: int) -> Color {
    if i == 0 {
        Color(1000, 0, 0, 1000)
    } else if i == 1 {
        Color(0, 1000, 0, 1000)
    } else if i == 2 {
        Color(0, 0, 1000, 1000)
    } else if i == 3 {
        Color(1000, 1000, 0, 1000)
    } else if i == 4 {
        Color(0, 1000, 1000, 1000)
    } else if i == 5 {
        Color(1000, 0, 1000, 1000)
    } else if i == 6 {
        Color(0, 0, 0, 1000)
    } else {
        Color(1000, 1000, 1000, 1000)
    }
}

/// The first `n` swatches: squares of 120 pixels, 20 apart, four to a row.
pub open spec fn swatch_ops<'a>(n: int) -> Seq<PaintOp<'a>>
    decreases n,
{
    if n <= 0 {
        seq![]
    } else {
        let i = n - 1;
        swatch_ops(n - 1) + seq![
            PaintOp::Source(swatch_color(i)),
            PaintOp::Rectangle {
                x: ((i % 4 * 140 + 40) * UNIT) as i64,
                y: ((i / 4 * 140 + 40) * UNIT) as i64,
                w: 122880,
                h: 122880,
            },
            PaintOp::Fill,
        ]
    }
}

/// The title at the lower left.
pub open spec fn title_ops<'a>(h: int, title: &'a String) -> Seq<PaintOp<'a>> {
    seq![
        PaintOp::Source(Color(0, 0, 0, 700)),
        PaintOp::FontSize(49152),
        PaintOp::MoveTo(Point { x: 40960, y: ((h - 60) * UNIT) as i64 }),
        PaintOp::ShowText(title),
    ]
}

/// The whole test image: a rainbow, a grid, swatches and a title.
pub open spec fn demo_ops<'a>(w: int, h: int, title: &'a String) -> Seq<PaintOp<'a>> {
    rainbow_ops(w, h) + column_ops(line_count(w), h) + line_ops(line_count(h), w)
        + seq![PaintOp::Stroke] + swatch_ops(8) + title_ops(h, title)
}

fn push_columns<'a>(out: &mut Vec<PaintOp<'a>>, w: i32, h: i32)
    ensures
        final(out)@ == old(out)@ + column_ops(line_count(w as int), h as int),
{
    let ghost start = out@;
    let ghost mut n: int = 0;
    let mut x: i64 = 0;
    assert(out@ =~= start + column_ops(0, h as int));
    while x <= w as i64
        invariant
            0 <= n,
            x == n * GRID_STEP,
            x <= w + GRID_STEP || n == 0,
            0 < n ==> (n - 1) * GRID_STEP <= w,
            out@ == start + column_ops(n, h as int),
        decreases w + GRID_STEP - x,
    {
        out.push(PaintOp::MoveTo(Point { x: x * UNIT, y: 0 }));
        out.push(PaintOp::LineTo(Point { x: x * UNIT, y: h as i64 * UNIT }));
        assert(out@ =~= start + column_ops(n + 1, h as int));
        proof {
            n = n + 1;
        }
        x = x + GRID_STEP as i64;
    }
    assert(n == line_count(w as int));
}

fn push_lines<'a>(out: &mut Vec<PaintOp<'a>>, w: i32, h: i32)
    ensures
        final(out)@ == old(out)@ + line_ops(line_count(h as int), w as int),
{
    let ghost start = out@;
    let ghost mut n: int = 0;
    let mut y: i64 = 0;
    assert(out@ =~= start + line_ops(0, w as int));
    while y <= h as i64
        invariant
            0 <= n,
            y == n * GRID_STEP,
            y <= h + GRID_STEP || n == 0,
            0 < n ==> (n - 1) * GRID_STEP <= h,
            out@ == start + line_ops(n, w as int),
        decreases h + GRID_STEP - y,
    {
        out.push(PaintOp::MoveTo(Point { x: 0, y: y * UNIT }));
        out.push(PaintOp::LineTo(Point { x: w as i64 * UNIT, y: y * UNIT }));
        assert(out@ =~= start + line_ops(n + 1, w as int));
        proof {
            n = n + 1;
        }
        y = y + GRID_STEP as i64;
    }
    assert(n == line_count(h as int));
}

fn color_of_swatch(i: usize) -> (r: Color)
    ensures
        r == swatch_color(i as int),
{
    if i == 0 {
        Color(1000, 0, 0, 1000)
    } else if i == 1 {
        Color(0, 1000, 0, 1000)
    } else if i == 2 {
        Color(0, 0, 1000, 1000)
    } else if i == 3 {
        Color(1000, 1000, 0, 1000)
    } else if i == 4 {
        Color(0, 1000, 1000, 1000)
    } else if i == 5 {
        Color(1000, 0, 1000, 1000)
    } else if i == 6 {
        Color(0, 0, 0, 1000)
    } else {
        Color(1000, 1000, 1000, 1000)
    }
}

fn push_swatches<'a>(out: &mut Vec<PaintOp<'a>>)
    ensures
        final(out)@ == old(out)@ + swatch_ops(8),
{
    let ghost start = out@;
    let mut i: usize = 0;
    assert(out@ =~= start + swatch_ops(0));
    while i < 8
        invariant
            i <= 8,
            out@ == start + swatch_ops(i as int),
        decreases 8 - i,
    {
        let x: i64 = ((i % 4) * 140 + 40) as i64;
        let y: i64 = ((i / 4) * 140 + 40) as i64;
        out.push(PaintOp::Source(color_of_swatch(i)));
        out.push(PaintOp::Rectangle { x: x * UNIT, y: y * UNIT, w: 120 * UNIT, h: 120 * UNIT });
        out.push(PaintOp::Fill);
        assert(out@ =~= start + swatch_ops(i + 1));
        i = i + 1;
    }
}

/// Paints the test image of the given size.
pub fn demo_surface<'a>(w: i32, h: i32, title: &'a String) -> (r: Vec<PaintOp<'a>>)
    ensures
        r@ == demo_ops(w as int, h as int, title),
{
    let mut out: Vec<PaintOp<'a>> = Vec::new();
    out.push(PaintOp::GradientStop { at: 0, color: Color(1000, 200, 200, 1000) });
    out.push(PaintOp::GradientStop { at: 250, color: Color(900, 900, 200, 1000) });
    out.push(PaintOp::GradientStop { at: 500, color: Color(200, 900, 400, 1000) });
    out.push(PaintOp::GradientStop { at: 750, color: Color(200, 400, 900, 1000) });
    out.push(PaintOp::GradientStop { at: 1000, color: Color(600, 200, 800, 1000) });
    out.push(PaintOp::Gradient(Point { x: w as i64 * UNIT, y: h as i64 * UNIT }));
    out.push(PaintOp::Source(Color(1000, 1000, 1000, 250)));
    out.push(PaintOp::LineWidth(UNIT));
    assert(out@ =~= rainbow_ops(w as int, h as int));
    push_columns(&mut out, w, h);
    push_lines(&mut out, w, h);
    out.push(PaintOp::Stroke);
    push_swatches(&mut out);
    let ghost drawn = out@;
    out.push(PaintOp::Source(Color(0, 0, 0, 700)));
    out.push(PaintOp::FontSize(48 * UNIT));
    out.push(PaintOp::MoveTo(Point { x: 40 * UNIT, y: (h as i64 - 60) * UNIT }));
    out.push(PaintOp::ShowText(title));
    assert(out@ =~= drawn + title_ops(h as int, title));
    assert(out@ =~= demo_ops(w as int, h as int, title));
    out
}

/// The grid has a line at the start of a length, and one every 80 pixels up to its
/// end.
pub proof fn law_grid_spans_the_length(length: int)
    ensures
        length < 0 ==> line_count(length) == 0,
        length >= 0 ==> 80 * (line_count(length) - 1) <= length < 80 * line_count(length),
{
}

/// The upright lines of the grid stand 80 pixels apart, from the image's upper edge
/// to its lower one.
pub proof fn law_grid_columns(n: int, h: int, k: int)
    requires
        0 <= k < n <= 0x400_0000,
        -0x8000_0000 <= h <= 0x7FFF_FFFF,
    ensures
        column_ops(n, h).len() == 2 * n,
        column_ops(n, h)[2 * k] matches PaintOp::MoveTo(p) && p.x == 81920 * k && p.y == 0,
        column_ops(n, h)[2 * k + 1] matches PaintOp::LineTo(p) && p.x == 81920 * k && p.y == 1024
            * h,
    decreases n,
{
    if n == 1 {
        assert(column_ops(0, h).len() == 0);
    } else {
        law_grid_columns(n - 1, h, if k < n - 1 {
            k
        } else {
            0
        });
    }
}

/// The level lines of the grid lie 80 pixels apart, from the image's left edge to
/// its right one.
pub proof fn law_grid_lines(n: int, w: int, k: int)
    requires
        0 <= k < n <= 0x400_0000,
        -0x8000_0000 <= w <= 0x7FFF_FFFF,
    ensures
        line_ops(n, w).len() == 2 * n,
        line_ops(n, w)[2 * k] matches PaintOp::MoveTo(p) && p.x == 0 && p.y == 81920 * k,
        line_ops(n, w)[2 * k + 1] matches PaintOp::LineTo(p) && p.x == 1024 * w && p.y == 81920
            * k,
    decreases n,
{
    if n == 1 {
        assert(line_ops(0, w).len() == 0);
    } else {
        law_grid_lines(n - 1, w, if k < n - 1 {
            k
        } else {
            0
        });
    }
}

/// The swatches stand four to a row, 140 pixels apart from 40 pixels on, each a
/// square of 120 pixels.
pub proof fn law_swatches(n: int, column: int, row: int)
    requires
        0 <= column < 4,
        0 <= row,
        4 * row + column < n <= 8,
    ensures
        ({
            let i = 4 * row + column;
            &&& swatch_ops(n).len() == 3 * n
            &&& swatch_ops(n)[3 * i] == PaintOp::Source(swatch_color(i))
            &&& swatch_ops(n)[3 * i + 1] matches PaintOp::Rectangle { x, y, w, h } && {
                &&& x == 1024 * (40 + 140 * column)
                &&& y == 1024 * (40 + 140 * row)
                &&& w == 1024 * 120
                &&& h == 1024 * 120
            }
            &&& swatch_ops(n)[3 * i + 2] is Fill
        }),
    decreases n,
{
    if n == 1 {
        assert(swatch_ops(0).len() == 0);
    } else if 4 * row + column < n - 1 {
        law_swatches(n - 1, column, row);
    } else {
        law_swatches(n - 1, 0, 0);
    }
}

/// The swatches are opaque, and each channel is either full or empty. The first
/// three have one full channel, the next three two; the last two are black and
/// white.
pub proof fn law_swatch_colors(i: int)
    requires
        0 <= i < 8,
    ensures
        ({
            let c = swatch_color(i);
            &&& c.3 == 1000
            &&& c.0 == if i == 0 || i == 3 || i == 5 || i == 7 { 1000int } else { 0 }
            &&& c.1 == if i == 1 || i == 3 || i == 4 || i == 7 { 1000int } else { 0 }
            &&& c.2 == if i == 2 || i == 4 || i == 5 || i == 7 { 1000int } else { 0 }
        }),
{
}

/// The test image is a rainbow from the upper left to the lower right corner in
/// five steps of the same length; then the grid in thin white, the swatches, and
/// the title 40 pixels from the left and 60 from the lower edge.
pub proof fn law_demo_layers<'a>(w: int, h: int, title: &'a String)
    requires
        -0x8000_0000 <= w <= 0x7FFF_FFFF,
        -0x8000_0000 <= h <= 0x7FFF_FFFF,
    ensures
        ({
            let ops = demo_ops(w, h, title);
            let columns = column_ops(line_count(w), h);
            let lines = line_ops(line_count(h), w);
            let a = 8 + columns.len() as int;
            let b = a + lines.len() as int;
            &&& ops.len() == b + 29
            &&& ops[0] == (PaintOp::GradientStop { at: 0, color: Color(1000, 200, 200, 1000) })
            &&& ops[1] == (PaintOp::GradientStop { at: 250, color: Color(900, 900, 200, 1000) })
            &&& ops[2] == (PaintOp::GradientStop { at: 500, color: Color(200, 900, 400, 1000) })
            &&& ops[3] == (PaintOp::GradientStop { at: 750, color: Color(200, 400, 900, 1000) })
            &&& ops[4] == (PaintOp::GradientStop { at: 1000, color: Color(600, 200, 800, 1000) })
            &&& ops[5] matches PaintOp::Gradient(p) && p.x == 1024 * w && p.y == 1024 * h
            &&& ops[6] == PaintOp::Source(Color(1000, 1000, 1000, 250))
            &&& ops[7] == PaintOp::LineWidth(1024)
            &&& ops.subrange(8, a) == columns
            &&& ops.subrange(a, b) == lines
            &&& ops[b] is Stroke
            &&& ops.subrange(b + 1, b + 25) == swatch_ops(8)
            &&& ops[b + 25] == PaintOp::Source(Color(0, 0, 0, 700))
            &&& ops[b + 26] == PaintOp::FontSize(49152)
            &&& ops[b + 27] matches PaintOp::MoveTo(p) && p.x == 1024 * 40 && p.y == 1024 * (h - 60)
            &&& ops[b + 28] == PaintOp::ShowText(title)
        }),
{
    let ops = demo_ops(w, h, title);
    let columns = column_ops(line_count(w), h);
    let lines = line_ops(line_count(h), w);
    let a = 8 + columns.len() as int;
    let b = a + lines.len() as int;
    law_swatches(8, 0, 0);
    assert(ops.subrange(8, a) =~= columns);
    assert(ops.subrange(a, b) =~= lines);
    assert(ops.subrange(b + 1, b + 25) =~= swatch_ops(8));
}

} // verus!
