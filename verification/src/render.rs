//! Display lists: what drawing commands put on a canvas.
//!
//! A display list holds the instructions for a 2-D canvas in the order in which
//! they are carried out. Coordinates are relative to the selection's upper left
//! corner.

use crate::image::{Pixels, MAX_SIDE};
use crate::tools::{Color, DrawCommand, DRAW_LIMIT};
use crate::units::{self, to_pixels, Point, UNIT};
use vstd::prelude::*;

verus! {

/// An instruction to a 2-D canvas. Lengths are in coordinate units.
#[allow(inconsistent_fields)]
#[derive(Debug, Clone, Copy, PartialEq, Eq)]
pub enum PaintOp<'a> {
    /// Remember the canvas's settings.
    Save,
    /// Return to the settings last remembered.
    Restore,
    LineWidth(i64),
    RoundCap,
    RoundJoin,
    EvenOddFill,
    FontSize(i64),
    Source(Color),
    /// A colour whose channels are `r`, `g` and `b` of 255.
    SourceRgb { r: u8, g: u8, b: u8 },
    /// The mean colour of `n` pixels whose channels sum up to `r`, `g`, `b`.
    SourceMean { r: u64, g: u64, b: u64, n: u64 },
    Rectangle { x: i64, y: i64, w: i64, h: i64 },
    /// Forget the path drawn so far.
    NewPath,
    /// The path of a circle.
    Circle { x: i64, y: i64, r: i64 },
    MoveTo(Point),
    LineTo(Point),
    /// A Bezier curve to `to`, with two control points.
    CurveTo { c1: Point, c2: Point, to: Point },
    /// Back to the start of the path.
    ClosePath,
    /// The two strokes of an arrowhead at `to`, of the given length. They stand at
    /// this angle to the line from `to` back to `from`, one on each side.
    ArrowHead { from: Point, to: Point, length: i64, degrees: u16 },
    Stroke,
    Fill,
    Clip,
    Translate(Point),
    ShowText(&'a String),
    /// Cover everything with the captured image, its corner at the point.
    Image(Point),
    /// Add a colour to the next gradient, at a place given in thousandths of its
    /// length.
    GradientStop { at: u16, color: Color },
    /// Cover everything with the gradient from the origin to the point.
    Gradient(Point),
}

/// The sum of one channel over the pixels `x0 .. x1` of a row.
pub open spec fn row_sum(src: Pixels, channel: int, y: int, x0: int, x1: int) -> int
    decreases x1 - x0,
{
    if x1 <= x0 {
        0
    } else {
        row_sum(src, channel, y, x0, x1 - 1) + channel_of(src, channel, x1 - 1, y)
    }
}

/// The sum of one channel over the columns `x0 .. x1` of the rows `y0 .. y1`.
pub open spec fn block_sum(src: Pixels, channel: int, x0: int, x1: int, y0: int, y1: int) -> int
    decreases y1 - y0,
{
    if y1 <= y0 {
        0
    } else {
        block_sum(src, channel, x0, x1, y0, y1 - 1) + row_sum(src, channel, y1 - 1, x0, x1)
    }
}

/// One channel of a pixel: 0 is blue, 1 green, 2 red.
pub open spec fn channel_of(src: Pixels, channel: int, x: int, y: int) -> int {
    let (b, g, r, _a) = src.pixel(x, y);
    if channel == 0 {
        b as int
    } else if channel == 1 {
        g as int
    } else {
        r as int
    }
}

/// The edges of a rectangle.
pub struct Edges {
    pub left: int,
    pub top: int,
    pub right: int,
    pub bottom: int,
}

/// What fills the cell at column `bx` and row `by` (in pixels, relative to the
/// selection at `ox`, `oy`): the average of the part of the source it covers,
/// and nothing where it covers none. The cell is cut off at the edges of the
/// mosaic.
pub open spec fn cell_ops<'a>(
    src: Pixels,
    ox: int,
    oy: int,
    bx: int,
    by: int,
    edges: Edges,
    block: int,
) -> Seq<PaintOp<'a>> {
    let x0 = units::clamped(ox + bx, 0, src.spec_width());
    let y0 = units::clamped(oy + by, 0, src.spec_height());
    let x1 = units::clamped(ox + bx + block, 0, src.spec_width());
    let y1 = units::clamped(oy + by + block, 0, src.spec_height());
    let left = units::greatest(bx * UNIT, edges.left);
    let top = units::greatest(by * UNIT, edges.top);
    if x0 < x1 && y0 < y1 {
        seq![
            PaintOp::SourceMean {
                r: block_sum(src, 2, x0, x1, y0, y1) as u64,
                g: block_sum(src, 1, x0, x1, y0, y1) as u64,
                b: block_sum(src, 0, x0, x1, y0, y1) as u64,
                n: ((x1 - x0) * (y1 - y0)) as u64,
            },
            PaintOp::Rectangle {
                x: left as i64,
                y: top as i64,
                w: (units::least((bx + block) * UNIT, edges.right) - left) as i64,
                h: (units::least((by + block) * UNIT, edges.bottom) - top) as i64,
            },
            PaintOp::Fill,
        ]
    } else {
        seq![]
    }
}

/// A row of cells, from column `bx` up to the right edge.
pub open spec fn cell_row_ops<'a>(
    src: Pixels,
    ox: int,
    oy: int,
    bx: int,
    by: int,
    edges: Edges,
    block: int,
) -> Seq<PaintOp<'a>>
    decreases units::greatest(0, edges.right - bx * UNIT),
{
    if block <= 0 || bx * UNIT >= edges.right {
        seq![]
    } else {
        cell_ops(src, ox, oy, bx, by, edges, block) + cell_row_ops(
            src,
            ox,
            oy,
            bx + block,
            by,
            edges,
            block,
        )
    }
}

/// Rows of cells, from row `by` down to the lower edge.
pub open spec fn cell_rows_ops<'a>(
    src: Pixels,
    ox: int,
    oy: int,
    bx: int,
    by: int,
    edges: Edges,
    block: int,
) -> Seq<PaintOp<'a>>
    decreases units::greatest(0, edges.bottom - by * UNIT),
{
    if block <= 0 || by * UNIT >= edges.bottom {
        seq![]
    } else {
        cell_row_ops(src, ox, oy, bx, by, edges, block) + cell_rows_ops(
            src,
            ox,
            oy,
            bx,
            by + block,
            edges,
            block,
        )
    }
}

/// The edges of the rectangle at `x`, `y`.
pub open spec fn edges_of(x: int, y: int, w: int, h: int) -> Edges {
    Edges { left: x, top: y, right: x + w, bottom: y + h }
}

/// The cells of a mosaic. They start at the whole pixel of the rectangle's
/// corner and are at least two pixels wide.
pub open spec fn mosaic_ops<'a>(
    src: Pixels,
    x: int,
    y: int,
    w: int,
    h: int,
    block: int,
    offset: Point,
) -> Seq<PaintOp<'a>> {
    cell_rows_ops(
        src,
        units::whole(offset.x as int),
        units::whole(offset.y as int),
        units::whole(x),
        units::whole(y),
        edges_of(x, y, w, h),
        units::greatest(block, 2),
    )
}

/// Lines through the given points, from the second on.
pub open spec fn polyline_ops<'a>(points: Seq<Point>) -> Seq<PaintOp<'a>> {
    Seq::new((points.len() - 1) as nat, |i: int| PaintOp::LineTo(points[i + 1]))
}

/// The angle between an arrow's line and the strokes of its head.
pub const HEAD_DEGREES: u16 = 25;

/// The length of an arrowhead's strokes: four times the line width, and at least
/// twelve pixels.
pub open spec fn head_length(width: int) -> int {
    units::greatest(width * 4, 12 * UNIT)
}

/// The distance of a Bezier curve's control points from its ends, with which
/// four curves come closest to an ellipse of this radius: 0.5522847498 of it, to
/// the nearest coordinate unit.
pub open spec fn bulge(radius: int) -> int {
    units::nearest(radius * 5522847498, 10000000000)
}

/// The point at the coordinates.
pub open spec fn point_at(x: int, y: int) -> Point {
    Point { x: x as i64, y: y as i64 }
}

/// The path of the ellipse inscribed in a rectangle: four curves between the
/// middles of its edges.
pub open spec fn ellipse_ops<'a>(x: int, y: int, w: int, h: int) -> Seq<PaintOp<'a>> {
    let cx = x + w / 2;
    let cy = y + h / 2;
    let left = cx - bulge(cx - x);
    let right = cx + bulge(x + w - cx);
    let upper = cy - bulge(cy - y);
    let lower = cy + bulge(y + h - cy);
    seq![
        PaintOp::NewPath,
        PaintOp::MoveTo(point_at(x + w, cy)),
        PaintOp::CurveTo {
            c1: point_at(x + w, lower),
            c2: point_at(right, y + h),
            to: point_at(cx, y + h),
        },
        PaintOp::CurveTo {
            c1: point_at(left, y + h),
            c2: point_at(x, lower),
            to: point_at(x, cy),
        },
        PaintOp::CurveTo {
            c1: point_at(x, upper),
            c2: point_at(left, y),
            to: point_at(cx, y),
        },
        PaintOp::CurveTo {
            c1: point_at(right, y),
            c2: point_at(x + w, upper),
            to: point_at(x + w, cy),
        },
        PaintOp::ClosePath,
    ]
}

/// What a command draws between saving and restoring the canvas's settings.
pub open spec fn command_body<'a>(
    cmd: &'a DrawCommand,
    src: Option<Pixels>,
    offset: Point,
) -> Seq<PaintOp<'a>> {
    match cmd {
        DrawCommand::Rect { x, y, w, h, style } => seq![
            PaintOp::LineWidth(style.width),
            PaintOp::Source(style.color),
            PaintOp::Rectangle { x: *x, y: *y, w: *w, h: *h },
            PaintOp::Stroke,
        ],
        DrawCommand::Ellipse { x, y, w, h, style } => seq![
            PaintOp::LineWidth(style.width),
            PaintOp::Source(style.color),
        ] + ellipse_ops(*x as int, *y as int, *w as int, *h as int) + seq![PaintOp::Stroke],
        DrawCommand::Line { x1, y1, x2, y2, style } => seq![
            PaintOp::LineWidth(style.width),
            PaintOp::RoundCap,
            PaintOp::Source(style.color),
            PaintOp::MoveTo(Point { x: *x1, y: *y1 }),
            PaintOp::LineTo(Point { x: *x2, y: *y2 }),
            PaintOp::Stroke,
        ],
        DrawCommand::Arrow { x1, y1, x2, y2, style } => seq![
            PaintOp::LineWidth(style.width),
            PaintOp::RoundCap,
            PaintOp::Source(style.color),
            PaintOp::MoveTo(Point { x: *x1, y: *y1 }),
            PaintOp::LineTo(Point { x: *x2, y: *y2 }),
            PaintOp::Stroke,
            PaintOp::ArrowHead {
                from: Point { x: *x1, y: *y1 },
                to: Point { x: *x2, y: *y2 },
                length: head_length(style.width as int) as i64,
                degrees: HEAD_DEGREES,
            },
            PaintOp::Stroke,
        ],
        DrawCommand::Brush { points, style } => if points@.len() < 2 {
            seq![]
        } else {
            seq![
                PaintOp::LineWidth(style.width),
                PaintOp::RoundCap,
                PaintOp::RoundJoin,
                PaintOp::Source(style.color),
                PaintOp::MoveTo(points@[0]),
            ] + polyline_ops(points@) + seq![PaintOp::Stroke]
        },
        DrawCommand::Mosaic { x, y, w, h, block } => match src {
            Some(p) => mosaic_ops(
                p,
                *x as int,
                *y as int,
                *w as int,
                *h as int,
                *block as int,
                offset,
            ),
            None => seq![],
        },
        DrawCommand::Text { x, y, text, size, color } => seq![
            PaintOp::FontSize(*size),
            PaintOp::Source(*color),
            PaintOp::MoveTo(Point { x: *x, y: (*y + *size) as i64 }),
            PaintOp::ShowText(text),
        ],
    }
}

/// The display list of a command. Saving and restoring keeps the commands'
/// settings apart.
pub open spec fn command_ops<'a>(
    cmd: &'a DrawCommand,
    src: Option<Pixels>,
    offset: Point,
) -> Seq<PaintOp<'a>> {
    seq![PaintOp::Save] + command_body(cmd, src, offset) + seq![PaintOp::Restore]
}

/// The display list of a stack of commands, in their order.
pub open spec fn stack_ops<'a>(
    stack: Seq<DrawCommand>,
    src: Option<Pixels>,
    offset: Point,
) -> Seq<PaintOp<'a>>
    decreases stack.len(),
{
    if stack.len() == 0 {
        seq![]
    } else {
        stack_ops(stack.drop_last(), src, offset) + command_ops(&stack.last(), src, offset)
    }
}

/// The source is not read but for mosaics; the selection's place on it is small
/// enough to be found in whole pixels.
pub open spec fn offset_fits(offset: Point) -> bool {
    offset.within(DRAW_LIMIT as int)
}

fn clamp_to(a: i64, hi: i32) -> (r: i32)
    requires
        hi >= 0,
    ensures
        r == units::clamped(a as int, 0, hi as int),
{
    if a <= 0 {
        0
    } else if a >= hi as i64 {
        hi
    } else {
        a as i32
    }
}

/// A row of pixels adds up to at most 255 for each of them.
proof fn lemma_row_sum(src: Pixels, channel: int, y: int, x0: int, x1: int)
    requires
        x0 <= x1,
    ensures
        0 <= row_sum(src, channel, y, x0, x1) <= 255 * (x1 - x0),
    decreases x1 - x0,
{
    if x0 < x1 {
        lemma_row_sum(src, channel, y, x0, x1 - 1);
    }
}

/// A block of pixels adds up to at most 255 for each of them.
proof fn lemma_block_sum(src: Pixels, channel: int, x0: int, x1: int, y0: int, y1: int)
    requires
        x0 <= x1,
        y0 <= y1,
    ensures
        0 <= block_sum(src, channel, x0, x1, y0, y1) <= 255 * ((x1 - x0) * (y1 - y0)),
    decreases y1 - y0,
{
    if y0 < y1 {
        lemma_block_sum(src, channel, x0, x1, y0, y1 - 1);
        lemma_row_sum(src, channel, y1 - 1, x0, x1);
        assert((x1 - x0) * (y1 - 1 - y0) + (x1 - x0) == (x1 - x0) * (y1 - y0)) by (nonlinear_arith);
    } else {
        assert((x1 - x0) * (y1 - y0) == 0) by (nonlinear_arith)
            requires
                y1 == y0,
        ;
    }
}

/// Adds up the channels of a block of pixels: red, green, blue.
fn sum_block(src: &Pixels, x0: i32, x1: i32, y0: i32, y1: i32) -> (s: (u64, u64, u64))
    requires
        0 <= x0 <= x1 <= src.spec_width(),
        0 <= y0 <= y1 <= src.spec_height(),
    ensures
        s.0 == block_sum(*src, 2, x0 as int, x1 as int, y0 as int, y1 as int),
        s.1 == block_sum(*src, 1, x0 as int, x1 as int, y0 as int, y1 as int),
        s.2 == block_sum(*src, 0, x0 as int, x1 as int, y0 as int, y1 as int),
{
    let width: i32 = src.width();
    let height: i32 = src.height();
    let mut r: u64 = 0;
    let mut g: u64 = 0;
    let mut b: u64 = 0;
    let mut py: i32 = y0;
    while py < y1
        invariant
            0 <= x0 <= x1 <= width <= MAX_SIDE,
            0 <= y0 <= py <= y1 <= height <= MAX_SIDE,
            width == src.spec_width(),
            height == src.spec_height(),
            r == block_sum(*src, 2, x0 as int, x1 as int, y0 as int, py as int),
            g == block_sum(*src, 1, x0 as int, x1 as int, y0 as int, py as int),
            b == block_sum(*src, 0, x0 as int, x1 as int, y0 as int, py as int),
            r <= 8355585 * (py - y0),
            g <= 8355585 * (py - y0),
            b <= 8355585 * (py - y0),
        decreases y1 - py,
    {
        let mut px: i32 = x0;
        let ghost r0 = r;
        let ghost g0 = g;
        let ghost b0 = b;
        while px < x1
            invariant
                0 <= x0 <= px <= x1 <= width <= MAX_SIDE,
                0 <= y0 <= py < y1 <= height <= MAX_SIDE,
                width == src.spec_width(),
                height == src.spec_height(),
                r0 <= 8355585 * (py - y0),
                g0 <= 8355585 * (py - y0),
                b0 <= 8355585 * (py - y0),
                r == r0 + row_sum(*src, 2, py as int, x0 as int, px as int),
                g == g0 + row_sum(*src, 1, py as int, x0 as int, px as int),
                b == b0 + row_sum(*src, 0, py as int, x0 as int, px as int),
                r <= r0 + 255 * (px - x0),
                g <= g0 + 255 * (px - x0),
                b <= b0 + 255 * (px - x0),
            decreases x1 - px,
        {
            let p: (u8, u8, u8, u8) = src.get(px, py);
            b = b + p.0 as u64;
            g = g + p.1 as u64;
            r = r + p.2 as u64;
            px = px + 1;
        }
        py = py + 1;
    }
    (r, g, b)
}

/// The rectangle that a mosaic covers.
struct Region {
    left: i64,
    top: i64,
    right: i64,
    bottom: i64,
}

impl Region {
    spec fn edges(self) -> Edges {
        Edges {
            left: self.left as int,
            top: self.top as int,
            right: self.right as int,
            bottom: self.bottom as int,
        }
    }

    spec fn fits(self) -> bool {
        &&& -2 * DRAW_LIMIT <= self.left <= 2 * DRAW_LIMIT
        &&& -2 * DRAW_LIMIT <= self.top <= 2 * DRAW_LIMIT
        &&& -2 * DRAW_LIMIT <= self.right <= 2 * DRAW_LIMIT
        &&& -2 * DRAW_LIMIT <= self.bottom <= 2 * DRAW_LIMIT
    }
}

/// Draws one cell of a mosaic.
fn push_cell<'a>(
    out: &mut Vec<PaintOp<'a>>,
    src: &Pixels,
    ox: i64,
    oy: i64,
    bx: i64,
    by: i64,
    region: &Region,
    block: i64,
)
    requires
        region.fits(),
        -DRAW_LIMIT <= ox <= DRAW_LIMIT,
        -DRAW_LIMIT <= oy <= DRAW_LIMIT,
        -DRAW_LIMIT <= bx <= DRAW_LIMIT,
        -DRAW_LIMIT <= by <= DRAW_LIMIT,
        0 < block <= 0x7FFF_FFFF,
    ensures
        final(out)@ == old(out)@ + cell_ops(
            *src,
            ox as int,
            oy as int,
            bx as int,
            by as int,
            region.edges(),
            block as int,
        ),
{
    let ghost before = out@;
    let sw: i32 = src.width();
    let sh: i32 = src.height();
    let x0: i32 = clamp_to(ox + bx, sw);
    let y0: i32 = clamp_to(oy + by, sh);
    let x1: i32 = clamp_to(ox + bx + block, sw);
    let y1: i32 = clamp_to(oy + by + block, sh);
    if x1 > x0 && y1 > y0 {
        let (r, g, b): (u64, u64, u64) = sum_block(src, x0, x1, y0, y1);
        assert(0 <= (x1 - x0) * (y1 - y0) <= 32767 * 32767) by (nonlinear_arith)
            requires
                0 <= x1 - x0 <= 32767,
                0 <= y1 - y0 <= 32767,
        ;
        let n: u64 = (x1 - x0) as u64 * (y1 - y0) as u64;
        out.push(PaintOp::SourceMean { r, g, b, n });
        let left: i64 = units::max_of(bx * UNIT, region.left);
        let top: i64 = units::max_of(by * UNIT, region.top);
        let right: i64 = units::min_of((bx + block) * UNIT, region.right);
        let bottom: i64 = units::min_of((by + block) * UNIT, region.bottom);
        out.push(PaintOp::Rectangle { x: left, y: top, w: right - left, h: bottom - top });
        out.push(PaintOp::Fill);
    }
    assert(out@ =~= before + cell_ops(
        *src,
        ox as int,
        oy as int,
        bx as int,
        by as int,
        region.edges(),
        block as int,
    ));
}

/// Draws a mosaic over the rectangle at `x`, `y`.
fn render_mosaic<'a>(
    out: &mut Vec<PaintOp<'a>>,
    src: &Pixels,
    x: i64,
    y: i64,
    w: i64,
    h: i64,
    block: i32,
    offset: Point,
)
    requires
        -DRAW_LIMIT <= x <= DRAW_LIMIT,
        -DRAW_LIMIT <= y <= DRAW_LIMIT,
        -DRAW_LIMIT <= w <= DRAW_LIMIT,
        -DRAW_LIMIT <= h <= DRAW_LIMIT,
        offset_fits(offset),
    ensures
        final(out)@ == old(out)@ + mosaic_ops(
            *src,
            x as int,
            y as int,
            w as int,
            h as int,
            block as int,
            offset,
        ),
{
    let ox: i64 = to_pixels(offset.x) as i64;
    let oy: i64 = to_pixels(offset.y) as i64;
    let cell: i64 = if block < 2 {
        2
    } else {
        block as i64
    };
    let region: Region = Region { left: x, top: y, right: x + w, bottom: y + h };
    let first: i64 = to_pixels(x) as i64;
    let ghost start = out@;
    let ghost all = mosaic_ops(
        *src,
        x as int,
        y as int,
        w as int,
        h as int,
        block as int,
        offset,
    );
    let mut by: i64 = to_pixels(y) as i64;
    while by * UNIT < region.bottom
        invariant
            -DRAW_LIMIT <= ox <= DRAW_LIMIT,
            -DRAW_LIMIT <= oy <= DRAW_LIMIT,
            -0x4000_0000 <= first <= 0x4000_0000,
            -0x4000_0000 <= by <= 0x1_4000_0000,
            region.fits(),
            2 <= cell <= 0x7FFF_FFFF,
            out@ + cell_rows_ops(
                *src,
                ox as int,
                oy as int,
                first as int,
                by as int,
                region.edges(),
                cell as int,
            ) == start + all,
        decreases units::greatest(0, region.bottom - by * UNIT),
    {
        let mut bx: i64 = first;
        let ghost rest = cell_rows_ops(
            *src,
            ox as int,
            oy as int,
            first as int,
            by + cell,
            region.edges(),
            cell as int,
        );
        while bx * UNIT < region.right
            invariant
                -DRAW_LIMIT <= ox <= DRAW_LIMIT,
                -DRAW_LIMIT <= oy <= DRAW_LIMIT,
                -0x4000_0000 <= bx <= 0x1_4000_0000,
                -0x4000_0000 <= by <= 0x8000_0000,
                region.fits(),
                2 <= cell <= 0x7FFF_FFFF,
                out@ + cell_row_ops(
                    *src,
                    ox as int,
                    oy as int,
                    bx as int,
                    by as int,
                    region.edges(),
                    cell as int,
                ) + rest == start + all,
            decreases units::greatest(0, region.right - bx * UNIT),
        {
            let ghost before = out@;
            push_cell(out, src, ox, oy, bx, by, &region, cell);
            proof {
                let one = cell_ops(
                    *src,
                    ox as int,
                    oy as int,
                    bx as int,
                    by as int,
                    region.edges(),
                    cell as int,
                );
                let tail = cell_row_ops(
                    *src,
                    ox as int,
                    oy as int,
                    bx + cell,
                    by as int,
                    region.edges(),
                    cell as int,
                );
                assert(before + (one + tail) + rest =~= (before + one) + tail + rest);
            }
            bx = bx + cell;
        }
        proof {
            assert(out@ + Seq::<PaintOp<'a>>::empty() + rest =~= out@ + rest);
        }
        by = by + cell;
    }
    assert(out@ + Seq::<PaintOp<'a>>::empty() =~= out@);
}

/// A control point is nearer to the curve's end than the radius.
proof fn lemma_bulge(radius: int)
    ensures
        radius >= 0 ==> 0 <= bulge(radius) <= radius,
        radius < 0 ==> radius <= bulge(radius) <= 0,
{
}

/// Halves a length, rounding down.
fn half(a: i64) -> (r: i64)
    requires
        -DRAW_LIMIT <= a <= DRAW_LIMIT,
    ensures
        r == a as int / 2,
{
    if a >= 0 {
        a / 2
    } else {
        -((1 - a) / 2)
    }
}

/// The distance of the control points for a radius.
fn bulge_of(radius: i64) -> (r: i64)
    requires
        -DRAW_LIMIT <= radius <= DRAW_LIMIT,
    ensures
        r == bulge(radius as int),
        -DRAW_LIMIT <= r <= DRAW_LIMIT,
{
    proof {
        lemma_bulge(radius as int);
    }
    if radius < 0 {
        let a: i128 = -(radius as i128) * 5522847498;
        (-((2 * a + 10000000000) / 20000000000)) as i64
    } else {
        let a: i128 = radius as i128 * 5522847498;
        ((2 * a + 10000000000) / 20000000000) as i64
    }
}

/// Appends the path of the ellipse inscribed in a rectangle.
fn push_ellipse<'a>(out: &mut Vec<PaintOp<'a>>, x: i64, y: i64, w: i64, h: i64)
    requires
        -DRAW_LIMIT <= x <= DRAW_LIMIT,
        -DRAW_LIMIT <= y <= DRAW_LIMIT,
        -DRAW_LIMIT <= w <= DRAW_LIMIT,
        -DRAW_LIMIT <= h <= DRAW_LIMIT,
    ensures
        final(out)@ == old(out)@ + ellipse_ops(x as int, y as int, w as int, h as int),
{
    let ghost before = out@;
    let x1: i64 = x + w;
    let y1: i64 = y + h;
    let cx: i64 = x + half(w);
    let cy: i64 = y + half(h);
    let left: i64 = cx - bulge_of(cx - x);
    let right: i64 = cx + bulge_of(x1 - cx);
    let upper: i64 = cy - bulge_of(cy - y);
    let lower: i64 = cy + bulge_of(y1 - cy);
    out.push(PaintOp::NewPath);
    out.push(PaintOp::MoveTo(Point { x: x1, y: cy }));
    out.push(
        PaintOp::CurveTo {
            c1: Point { x: x1, y: lower },
            c2: Point { x: right, y: y1 },
            to: Point { x: cx, y: y1 },
        },
    );
    out.push(
        PaintOp::CurveTo {
            c1: Point { x: left, y: y1 },
            c2: Point { x, y: lower },
            to: Point { x, y: cy },
        },
    );
    out.push(
        PaintOp::CurveTo {
            c1: Point { x, y: upper },
            c2: Point { x: left, y },
            to: Point { x: cx, y },
        },
    );
    out.push(
        PaintOp::CurveTo {
            c1: Point { x: right, y },
            c2: Point { x: x1, y: upper },
            to: Point { x: x1, y: cy },
        },
    );
    out.push(PaintOp::ClosePath);
    assert(out@ =~= before + ellipse_ops(x as int, y as int, w as int, h as int));
}

/// Appends the display list of one command. The settings of the canvas are the
/// same before and after.
pub fn render_command<'a>(
    out: &mut Vec<PaintOp<'a>>,
    cmd: &'a DrawCommand,
    src: Option<&Pixels>,
    offset: Point,
)
    requires
        cmd.measurable(),
        offset_fits(offset),
    ensures
        final(out)@ == old(out)@ + command_ops(
            cmd,
            match src {
                Some(p) => Some(*p),
                None => None,
            },
            offset,
        ),
{
    let ghost before = out@;
    let ghost view = match src {
        Some(p) => Some(*p),
        None => None::<Pixels>,
    };
    out.push(PaintOp::Save);
    match cmd {
        DrawCommand::Rect { x, y, w, h, style } => {
            out.push(PaintOp::LineWidth(style.width));
            out.push(style.color.apply());
            out.push(PaintOp::Rectangle { x: *x, y: *y, w: *w, h: *h });
            out.push(PaintOp::Stroke);
        },
        DrawCommand::Ellipse { x, y, w, h, style } => {
            out.push(PaintOp::LineWidth(style.width));
            out.push(style.color.apply());
            push_ellipse(out, *x, *y, *w, *h);
            out.push(PaintOp::Stroke);
        },
        DrawCommand::Line { x1, y1, x2, y2, style } => {
            out.push(PaintOp::LineWidth(style.width));
            out.push(PaintOp::RoundCap);
            out.push(style.color.apply());
            out.push(PaintOp::MoveTo(Point { x: *x1, y: *y1 }));
            out.push(PaintOp::LineTo(Point { x: *x2, y: *y2 }));
            out.push(PaintOp::Stroke);
        },
        DrawCommand::Arrow { x1, y1, x2, y2, style } => {
            let from: Point = Point { x: *x1, y: *y1 };
            let to: Point = Point { x: *x2, y: *y2 };
            out.push(PaintOp::LineWidth(style.width));
            out.push(PaintOp::RoundCap);
            out.push(style.color.apply());
            out.push(PaintOp::MoveTo(from));
            out.push(PaintOp::LineTo(to));
            out.push(PaintOp::Stroke);
            let length: i64 = units::max_of(style.width * 4, 12 * UNIT);
            out.push(PaintOp::ArrowHead { from, to, length, degrees: HEAD_DEGREES });
            out.push(PaintOp::Stroke);
        },
        DrawCommand::Brush { points, style } => {
            if points.len() >= 2 {
                out.push(PaintOp::LineWidth(style.width));
                out.push(PaintOp::RoundCap);
                out.push(PaintOp::RoundJoin);
                out.push(style.color.apply());
                out.push(PaintOp::MoveTo(points[0]));
                let ghost head = out@;
                let mut i: usize = 1;
                while i < points.len()
                    invariant
                        1 <= i <= points@.len(),
                        out@ =~= head + polyline_ops(points@).take(i - 1),
                    decreases points@.len() - i,
                {
                    out.push(PaintOp::LineTo(points[i]));
                    assert(polyline_ops(points@).take(i as int) =~= polyline_ops(
                        points@,
                    ).take(i - 1).push(PaintOp::LineTo(points@[i as int])));
                    i = i + 1;
                }
                assert(polyline_ops(points@).take(i - 1) =~= polyline_ops(points@));
                out.push(PaintOp::Stroke);
            }
        },
        DrawCommand::Mosaic { x, y, w, h, block } => {
            if let Some(p) = src {
                render_mosaic(out, p, *x, *y, *w, *h, *block, offset);
            }
        },
        DrawCommand::Text { x, y, text, size, color } => {
            out.push(PaintOp::FontSize(*size));
            out.push(color.apply());
            out.push(PaintOp::MoveTo(Point { x: *x, y: *y + *size }));
            out.push(PaintOp::ShowText(text));
        },
    }
    assert(out@ =~= before + (seq![PaintOp::Save] + command_body(cmd, view, offset)));
    out.push(PaintOp::Restore);
    assert(out@ =~= before + command_ops(cmd, view, offset));
}

/// Appends the display lists of all commands, in their order.
pub fn render_stack<'a>(
    out: &mut Vec<PaintOp<'a>>,
    stack: &'a [DrawCommand],
    src: Option<&Pixels>,
    offset: Point,
)
    requires
        forall|i: int| 0 <= i < stack@.len() ==> (#[trigger] stack@[i]).measurable(),
        offset_fits(offset),
    ensures
        final(out)@ == old(out)@ + stack_ops(
            stack@,
            match src {
                Some(p) => Some(*p),
                None => None,
            },
            offset,
        ),
{
    let ghost before = out@;
    let ghost view = match src {
        Some(p) => Some(*p),
        None => None::<Pixels>,
    };
    let mut i: usize = 0;
    assert(out@ =~= before + stack_ops(stack@.take(0), view, offset));
    while i < stack.len()
        invariant
            i <= stack@.len(),
            forall|j: int| 0 <= j < stack@.len() ==> (#[trigger] stack@[j]).measurable(),
            offset_fits(offset),
            view == (match src {
                Some(p) => Some(*p),
                None => None,
            }),
            out@ == before + stack_ops(stack@.take(i as int), view, offset),
        decreases stack@.len() - i,
    {
        assert(stack@[i as int].measurable());
        render_command(out, &stack[i], src, offset);
        proof {
            let next = stack@.take(i + 1);
            assert(next.drop_last() =~= stack@.take(i as int));
            assert(next.last() == stack@[i as int]);
            assert(out@ =~= before + stack_ops(next, view, offset));
        }
        i = i + 1;
    }
    assert(stack@.take(i as int) =~= stack@);
}

/// The operation leaves the remembered settings alone.
pub open spec fn keeps_settings(op: PaintOp) -> bool {
    !(op is Save) && !(op is Restore)
}

/// The operation's mean colour, if it sets one, is one that pixels can have.
pub open spec fn sound_mean(op: PaintOp) -> bool {
    match op {
        PaintOp::SourceMean { r, g, b, n } => {
            &&& n > 0
            &&& r <= 255 * n
            &&& g <= 255 * n
            &&& b <= 255 * n
        },
        _ => true,
    }
}

proof fn lemma_cell(
    src: Pixels,
    ox: int,
    oy: int,
    bx: int,
    by: int,
    edges: Edges,
    block: int,
    i: int,
)
    requires
        0 <= i < cell_ops(src, ox, oy, bx, by, edges, block).len(),
        0 <= src.spec_width() <= MAX_SIDE,
        0 <= src.spec_height() <= MAX_SIDE,
    ensures
        keeps_settings(cell_ops(src, ox, oy, bx, by, edges, block)[i]),
        sound_mean(cell_ops(src, ox, oy, bx, by, edges, block)[i]),
{
    let x0 = units::clamped(ox + bx, 0, src.spec_width());
    let y0 = units::clamped(oy + by, 0, src.spec_height());
    let x1 = units::clamped(ox + bx + block, 0, src.spec_width());
    let y1 = units::clamped(oy + by + block, 0, src.spec_height());
    lemma_block_sum(src, 0, x0, x1, y0, y1);
    lemma_block_sum(src, 1, x0, x1, y0, y1);
    lemma_block_sum(src, 2, x0, x1, y0, y1);
    assert(0 < (x1 - x0) * (y1 - y0) <= 32767 * 32767) by (nonlinear_arith)
        requires
            0 < x1 - x0 <= 32767,
            0 < y1 - y0 <= 32767,
    ;
}

proof fn lemma_cell_row(
    src: Pixels,
    ox: int,
    oy: int,
    bx: int,
    by: int,
    edges: Edges,
    block: int,
    i: int,
)
    requires
        0 <= i < cell_row_ops(src, ox, oy, bx, by, edges, block).len(),
        0 <= src.spec_width() <= MAX_SIDE,
        0 <= src.spec_height() <= MAX_SIDE,
    ensures
        keeps_settings(cell_row_ops(src, ox, oy, bx, by, edges, block)[i]),
        sound_mean(cell_row_ops(src, ox, oy, bx, by, edges, block)[i]),
    decreases units::greatest(0, edges.right - bx * UNIT),
{
    if block > 0 && bx * UNIT < edges.right {
        let n = cell_ops(src, ox, oy, bx, by, edges, block).len();
        if i < n {
            lemma_cell(src, ox, oy, bx, by, edges, block, i);
        } else {
            lemma_cell_row(src, ox, oy, bx + block, by, edges, block, i - n);
        }
    }
}

proof fn lemma_cell_rows(
    src: Pixels,
    ox: int,
    oy: int,
    bx: int,
    by: int,
    edges: Edges,
    block: int,
    i: int,
)
    requires
        0 <= i < cell_rows_ops(src, ox, oy, bx, by, edges, block).len(),
        0 <= src.spec_width() <= MAX_SIDE,
        0 <= src.spec_height() <= MAX_SIDE,
    ensures
        keeps_settings(cell_rows_ops(src, ox, oy, bx, by, edges, block)[i]),
        sound_mean(cell_rows_ops(src, ox, oy, bx, by, edges, block)[i]),
    decreases units::greatest(0, edges.bottom - by * UNIT),
{
    if block > 0 && by * UNIT < edges.bottom {
        let n = cell_row_ops(src, ox, oy, bx, by, edges, block).len();
        if i < n {
            lemma_cell_row(src, ox, oy, bx, by, edges, block, i);
        } else {
            lemma_cell_rows(src, ox, oy, bx, by + block, edges, block, i - n);
        }
    }
}

/// The source image has the dimensions of one that can exist.
pub open spec fn sized(src: Option<Pixels>) -> bool {
    match src {
        Some(p) => 0 <= p.spec_width() <= MAX_SIDE && 0 <= p.spec_height() <= MAX_SIDE,
        None => true,
    }
}

/// Commands are isolated from each other: a command saves the settings first,
/// restores them last, and does neither in between.
pub proof fn law_command_is_isolated(cmd: &DrawCommand, src: Option<Pixels>, offset: Point)
    requires
        sized(src),
    ensures
        command_ops(cmd, src, offset).len() >= 2,
        command_ops(cmd, src, offset).first() is Save,
        command_ops(cmd, src, offset).last() is Restore,
        forall|i: int|
            0 < i < command_ops(cmd, src, offset).len() - 1 ==> keeps_settings(
                #[trigger] command_ops(cmd, src, offset)[i],
            ),
{
    let body = command_body(cmd, src, offset);
    assert forall|i: int| 0 <= i < body.len() implies keeps_settings(#[trigger] body[i]) by {
        if let DrawCommand::Mosaic { x, y, w, h, block } = cmd {
            if let Some(p) = src {
                lemma_cell_rows(
                    p,
                    units::whole(offset.x as int),
                    units::whole(offset.y as int),
                    units::whole(*x as int),
                    units::whole(*y as int),
                    edges_of(*x as int, *y as int, *w as int, *h as int),
                    units::greatest(*block as int, 2),
                    i,
                );
            }
        }
    }
    let ops = command_ops(cmd, src, offset);
    assert forall|i: int| 0 < i < ops.len() - 1 implies keeps_settings(#[trigger] ops[i]) by {
        assert(ops[i] == body[i - 1]);
    }
}

/// The mean colour of a mosaic cell is taken over at least one pixel, and no
/// channel of it exceeds the brightest.
pub proof fn law_mosaic_means(cmd: &DrawCommand, src: Option<Pixels>, offset: Point)
    requires
        sized(src),
    ensures
        forall|i: int|
            0 <= i < command_ops(cmd, src, offset).len() ==> sound_mean(
                #[trigger] command_ops(cmd, src, offset)[i],
            ),
{
    let body = command_body(cmd, src, offset);
    assert forall|i: int| 0 <= i < body.len() implies sound_mean(#[trigger] body[i]) by {
        if let DrawCommand::Mosaic { x, y, w, h, block } = cmd {
            if let Some(p) = src {
                lemma_cell_rows(
                    p,
                    units::whole(offset.x as int),
                    units::whole(offset.y as int),
                    units::whole(*x as int),
                    units::whole(*y as int),
                    edges_of(*x as int, *y as int, *w as int, *h as int),
                    units::greatest(*block as int, 2),
                    i,
                );
            }
        }
    }
    let ops = command_ops(cmd, src, offset);
    assert forall|i: int| 0 <= i < ops.len() implies sound_mean(#[trigger] ops[i]) by {
        if 0 < i < ops.len() - 1 {
            assert(ops[i] == body[i - 1]);
        }
    }
}

/// The operation outlines a rectangle that covers the pixel.
pub open spec fn outlines(op: PaintOp, px: int, py: int) -> bool {
    match op {
        PaintOp::Rectangle { x, y, w, h } => {
            &&& x <= px * UNIT
            &&& (px + 1) * UNIT <= x + w
            &&& y <= py * UNIT
            &&& (py + 1) * UNIT <= y + h
        },
        _ => false,
    }
}

/// Some rectangle of the display list is filled with a mean colour and covers
/// the pixel.
pub open spec fn pixelated(ops: Seq<PaintOp>, px: int, py: int) -> bool {
    exists|i: int|
        {
            &&& 0 < i < ops.len() - 1
            &&& ops[i - 1] is SourceMean
            &&& outlines(#[trigger] ops[i], px, py)
            &&& ops[i + 1] is Fill
        }
}

proof fn lemma_pixelated_between(
    before: Seq<PaintOp>,
    ops: Seq<PaintOp>,
    after: Seq<PaintOp>,
    px: int,
    py: int,
)
    requires
        pixelated(ops, px, py),
    ensures
        pixelated(before + ops + after, px, py),
{
    let i = choose|i: int|
        {
            &&& 0 < i < ops.len() - 1
            &&& ops[i - 1] is SourceMean
            &&& outlines(#[trigger] ops[i], px, py)
            &&& ops[i + 1] is Fill
        };
    let all = before + ops + after;
    let j = before.len() + i;
    assert(all[j - 1] == ops[i - 1]);
    assert(all[j] == ops[i]);
    assert(all[j + 1] == ops[i + 1]);
}

/// The pixel lies inside the edges, with all of its extent.
pub open spec fn within_edges(edges: Edges, px: int, py: int) -> bool {
    &&& -2 * DRAW_LIMIT <= edges.left <= px * UNIT
    &&& (px + 1) * UNIT <= edges.right <= 2 * DRAW_LIMIT
    &&& -2 * DRAW_LIMIT <= edges.top <= py * UNIT
    &&& (py + 1) * UNIT <= edges.bottom <= 2 * DRAW_LIMIT
}

proof fn lemma_row_pixelates(
    src: Pixels,
    ox: int,
    oy: int,
    bx: int,
    by: int,
    edges: Edges,
    block: int,
    px: int,
    py: int,
)
    requires
        -0x8000_0000 <= bx <= px <= 0x1_0000_0000,
        -0x8000_0000 <= by <= py < by + block,
        py <= 0x1_0000_0000,
        within_edges(edges, px, py),
        2 <= block <= 0x7FFF_FFFF,
        0 <= ox + px < src.spec_width(),
        0 <= oy + py < src.spec_height(),
    ensures
        pixelated(cell_row_ops(src, ox, oy, bx, by, edges, block), px, py),
    decreases units::greatest(0, edges.right - bx * UNIT),
{
    let one = cell_ops(src, ox, oy, bx, by, edges, block);
    let tail = cell_row_ops(src, ox, oy, bx + block, by, edges, block);
    let none = Seq::<PaintOp>::empty();
    if px < bx + block {
        assert(one[0] is SourceMean);
        assert(outlines(one[1], px, py));
        assert(one[2] is Fill);
        assert(pixelated(one, px, py));
        lemma_pixelated_between(none, one, tail, px, py);
        assert(none + one + tail =~= one + tail);
    } else {
        lemma_row_pixelates(src, ox, oy, bx + block, by, edges, block, px, py);
        lemma_pixelated_between(one, tail, none, px, py);
        assert(one + tail + none =~= one + tail);
    }
}

proof fn lemma_rows_pixelate(
    src: Pixels,
    ox: int,
    oy: int,
    bx: int,
    by: int,
    edges: Edges,
    block: int,
    px: int,
    py: int,
)
    requires
        -0x8000_0000 <= bx <= px <= 0x1_0000_0000,
        -0x8000_0000 <= by <= py <= 0x1_0000_0000,
        within_edges(edges, px, py),
        2 <= block <= 0x7FFF_FFFF,
        0 <= ox + px < src.spec_width(),
        0 <= oy + py < src.spec_height(),
    ensures
        pixelated(cell_rows_ops(src, ox, oy, bx, by, edges, block), px, py),
    decreases units::greatest(0, edges.bottom - by * UNIT),
{
    let row = cell_row_ops(src, ox, oy, bx, by, edges, block);
    let tail = cell_rows_ops(src, ox, oy, bx, by + block, edges, block);
    let none = Seq::<PaintOp>::empty();
    if py < by + block {
        lemma_row_pixelates(src, ox, oy, bx, by, edges, block, px, py);
        lemma_pixelated_between(none, row, tail, px, py);
        assert(none + row + tail =~= row + tail);
    } else {
        lemma_rows_pixelate(src, ox, oy, bx, by + block, edges, block, px, py);
        lemma_pixelated_between(row, tail, none, px, py);
        assert(row + tail + none =~= row + tail);
    }
}

/// A mosaic leaves no pixel of its rectangle as it was: each one that lies wholly
/// in it, and that the source image has, is painted over with the mean colour of a
/// cell.
pub proof fn law_mosaic_hides_every_pixel(
    cmd: &DrawCommand,
    src: Pixels,
    offset: Point,
    px: int,
    py: int,
)
    requires
        cmd.measurable(),
        offset_fits(offset),
        *cmd matches DrawCommand::Mosaic { x, y, w, h, .. } && {
            &&& x <= px * UNIT
            &&& (px + 1) * UNIT <= x + w
            &&& y <= py * UNIT
            &&& (py + 1) * UNIT <= y + h
        },
        0 <= units::whole(offset.x as int) + px < src.spec_width(),
        0 <= units::whole(offset.y as int) + py < src.spec_height(),
    ensures
        pixelated(command_ops(cmd, Some(src), offset), px, py),
{
    if let DrawCommand::Mosaic { x, y, w, h, block } = cmd {
        lemma_rows_pixelate(
            src,
            units::whole(offset.x as int),
            units::whole(offset.y as int),
            units::whole(*x as int),
            units::whole(*y as int),
            edges_of(*x as int, *y as int, *w as int, *h as int),
            units::greatest(*block as int, 2),
            px,
            py,
        );
        lemma_pixelated_between(
            seq![PaintOp::Save],
            command_body(cmd, Some(src), offset),
            seq![PaintOp::Restore],
            px,
            py,
        );
    }
}

/// The operation outlines nothing outside the edges, if it outlines a rectangle.
pub open spec fn kept_within(op: PaintOp, edges: Edges) -> bool {
    match op {
        PaintOp::Rectangle { x, y, w, h } => {
            &&& edges.left <= x
            &&& edges.top <= y
            &&& 0 <= w
            &&& 0 <= h
            &&& x + w <= edges.right
            &&& y + h <= edges.bottom
        },
        _ => true,
    }
}

/// The edges belong to a drawable mosaic, and the cell starts before the right
/// and lower ones and does not end before the left and upper ones.
spec fn cell_meets(edges: Edges, bx: int, by: int, block: int) -> bool {
    &&& -2 * DRAW_LIMIT <= edges.left <= (bx + block) * UNIT
    &&& -2 * DRAW_LIMIT <= edges.top <= (by + block) * UNIT
    &&& edges.left <= edges.right <= 2 * DRAW_LIMIT
    &&& edges.top <= edges.bottom <= 2 * DRAW_LIMIT
    &&& -0x8000_0000 <= bx
    &&& -0x8000_0000 <= by
    &&& 2 <= block <= 0x7FFF_FFFF
}

proof fn lemma_row_is_kept(
    src: Pixels,
    ox: int,
    oy: int,
    bx: int,
    by: int,
    edges: Edges,
    block: int,
    i: int,
)
    requires
        0 <= i < cell_row_ops(src, ox, oy, bx, by, edges, block).len(),
        cell_meets(edges, bx, by, block),
        by * UNIT < edges.bottom,
    ensures
        kept_within(cell_row_ops(src, ox, oy, bx, by, edges, block)[i], edges),
    decreases units::greatest(0, edges.right - bx * UNIT),
{
    if bx * UNIT < edges.right {
        let n = cell_ops(src, ox, oy, bx, by, edges, block).len();
        if i >= n {
            lemma_row_is_kept(src, ox, oy, bx + block, by, edges, block, i - n);
        }
    }
}

proof fn lemma_rows_are_kept(
    src: Pixels,
    ox: int,
    oy: int,
    bx: int,
    by: int,
    edges: Edges,
    block: int,
    i: int,
)
    requires
        0 <= i < cell_rows_ops(src, ox, oy, bx, by, edges, block).len(),
        cell_meets(edges, bx, by, block),
    ensures
        kept_within(cell_rows_ops(src, ox, oy, bx, by, edges, block)[i], edges),
    decreases units::greatest(0, edges.bottom - by * UNIT),
{
    if by * UNIT < edges.bottom {
        let n = cell_row_ops(src, ox, oy, bx, by, edges, block).len();
        if i < n {
            lemma_row_is_kept(src, ox, oy, bx, by, edges, block, i);
        } else {
            lemma_rows_are_kept(src, ox, oy, bx, by + block, edges, block, i - n);
        }
    }
}

/// A mosaic paints nothing outside its rectangle.
pub proof fn law_mosaic_stays_in_place(cmd: &DrawCommand, src: Pixels, offset: Point, i: int)
    requires
        cmd.measurable(),
        *cmd matches DrawCommand::Mosaic { w, h, .. } && 0 <= w && 0 <= h,
        0 <= i < command_ops(cmd, Some(src), offset).len(),
    ensures
        *cmd matches DrawCommand::Mosaic { x, y, w, h, .. } && kept_within(
            command_ops(cmd, Some(src), offset)[i],
            edges_of(x as int, y as int, w as int, h as int),
        ),
{
    if let DrawCommand::Mosaic { x, y, w, h, block } = cmd {
        let body = command_body(cmd, Some(src), offset);
        if 0 < i <= body.len() {
            assert(command_ops(cmd, Some(src), offset)[i] == body[i - 1]);
            lemma_rows_are_kept(
                src,
                units::whole(offset.x as int),
                units::whole(offset.y as int),
                units::whole(*x as int),
                units::whole(*y as int),
                edges_of(*x as int, *y as int, *w as int, *h as int),
                units::greatest(*block as int, 2),
                i - 1,
            );
        }
    }
}

/// The operation draws nowhere outside the rectangle: the curve's ends and
/// control points lie in it, and so does a Bezier curve between them.
pub open spec fn stays_inside(op: PaintOp, x: int, y: int, w: int, h: int) -> bool {
    let inside = |p: Point| x <= p.x <= x + w && y <= p.y <= y + h;
    match op {
        PaintOp::MoveTo(p) => inside(p),
        PaintOp::CurveTo { c1, c2, to } => inside(c1) && inside(c2) && inside(to),
        _ => true,
    }
}

/// The ellipse is inscribed in its rectangle: no part of it lies outside, and it
/// touches all four edges, each in its middle to within a coordinate unit.
pub proof fn law_ellipse_is_inscribed(x: int, y: int, w: int, h: int)
    requires
        -DRAW_LIMIT <= x <= DRAW_LIMIT,
        -DRAW_LIMIT <= y <= DRAW_LIMIT,
        0 <= w <= DRAW_LIMIT,
        0 <= h <= DRAW_LIMIT,
    ensures
        forall|i: int|
            0 <= i < ellipse_ops(x, y, w, h).len() ==> stays_inside(
                #[trigger] ellipse_ops(x, y, w, h)[i],
                x,
                y,
                w,
                h,
            ),
        ellipse_ops(x, y, w, h)[3] matches PaintOp::CurveTo { to, .. } && to.x == x && to.y == y + h
            / 2,
        ellipse_ops(x, y, w, h)[4] matches PaintOp::CurveTo { to, .. } && to.y == y && to.x == x + w
            / 2,
        ellipse_ops(x, y, w, h)[5] matches PaintOp::CurveTo { to, .. } && to.x == x + w && to.y == y
            + h / 2,
        ellipse_ops(x, y, w, h)[2] matches PaintOp::CurveTo { to, .. } && to.y == y + h && to.x == x
            + w / 2,
{
    lemma_bulge(w / 2);
    lemma_bulge(w - w / 2);
    lemma_bulge(h / 2);
    lemma_bulge(h - h / 2);
}

/// A stack is drawn as the stacks it is made of, one after the other.
pub proof fn law_stack_is_replayed_in_order(
    a: Seq<DrawCommand>,
    b: Seq<DrawCommand>,
    src: Option<Pixels>,
    offset: Point,
)
    ensures
        stack_ops(a + b, src, offset) == stack_ops(a, src, offset) + stack_ops(b, src, offset),
    decreases b.len(),
{
    if b.len() == 0 {
        assert(a + b =~= a);
        assert(stack_ops(a, src, offset) + stack_ops(b, src, offset) =~= stack_ops(a, src, offset));
    } else {
        law_stack_is_replayed_in_order(a, b.drop_last(), src, offset);
        assert((a + b).drop_last() =~= a + b.drop_last());
        assert((a + b).last() == b.last());
        assert(stack_ops(a + b, src, offset) =~= stack_ops(a, src, offset) + stack_ops(
            b,
            src,
            offset,
        ));
    }
}

/// How many more times the settings were saved than restored.
pub open spec fn level(ops: Seq<PaintOp>) -> int
    decreases ops.len(),
{
    if ops.len() == 0 {
        0
    } else {
        level(ops.drop_last()) + if ops.last() is Save {
            1int
        } else if ops.last() is Restore {
            -1
        } else {
            0
        }
    }
}

/// Every restoring has its saving before it, and every saving its restoring.
pub open spec fn nested(ops: Seq<PaintOp>) -> bool {
    &&& level(ops) == 0
    &&& forall|n: int| 0 <= n <= ops.len() ==> level(#[trigger] ops.take(n)) >= 0
}

proof fn lemma_level_of_sum(a: Seq<PaintOp>, b: Seq<PaintOp>)
    ensures
        level(a + b) == level(a) + level(b),
    decreases b.len(),
{
    if b.len() == 0 {
        assert(a + b =~= a);
    } else {
        assert((a + b).drop_last() =~= a + b.drop_last());
        lemma_level_of_sum(a, b.drop_last());
    }
}

proof fn lemma_level_of_one(op: PaintOp)
    ensures
        level(seq![op]) == if op is Save {
            1int
        } else if op is Restore {
            -1
        } else {
            0
        },
{
    let one = seq![op];
    assert(one.last() == op);
    assert(level(one.drop_last()) == 0);
    assert(level(one) == level(one.drop_last()) + if one.last() is Save {
        1int
    } else if one.last() is Restore {
        -1
    } else {
        0
    });
}

proof fn lemma_level_of_settled(ops: Seq<PaintOp>)
    requires
        forall|i: int| 0 <= i < ops.len() ==> keeps_settings(#[trigger] ops[i]),
    ensures
        level(ops) == 0,
    decreases ops.len(),
{
    if ops.len() > 0 {
        assert(keeps_settings(ops[ops.len() - 1]));
        lemma_level_of_settled(ops.drop_last());
    }
}

proof fn lemma_nested_sum(a: Seq<PaintOp>, b: Seq<PaintOp>)
    requires
        nested(a),
        nested(b),
    ensures
        nested(a + b),
{
    lemma_level_of_sum(a, b);
    assert forall|n: int| 0 <= n <= (a + b).len() implies level(#[trigger] (a + b).take(n)) >= 0 by {
        if n <= a.len() {
            assert((a + b).take(n) =~= a.take(n));
        } else {
            assert((a + b).take(n) =~= a + b.take(n - a.len()));
            lemma_level_of_sum(a, b.take(n - a.len()));
        }
    }
}

proof fn lemma_nested_command(cmd: &DrawCommand, src: Option<Pixels>, offset: Point)
    requires
        sized(src),
    ensures
        nested(command_ops(cmd, src, offset)),
{
    law_command_is_isolated(cmd, src, offset);
    let ops = command_ops(cmd, src, offset);
    let m = ops.len() as int;
    assert forall|n: int| 0 <= n <= m implies level(#[trigger] ops.take(n)) == (if 0 < n < m {
        1int
    } else {
        0
    }) by {
        if 0 < n {
            let inner = ops.subrange(1, if n < m {
                n
            } else {
                m - 1
            });
            lemma_level_of_settled(inner);
            let open = seq![ops[0]] + inner;
            lemma_level_of_sum(seq![ops[0]], inner);
            assert(ops[0] is Save);
            lemma_level_of_one(ops[0]);
            if n < m {
                assert(ops.take(n) =~= open);
            } else {
                assert(ops.take(n) =~= open + seq![ops[m - 1]]);
                lemma_level_of_sum(open, seq![ops[m - 1]]);
                assert(ops[m - 1] is Restore);
                lemma_level_of_one(ops[m - 1]);
            }
        }
    }
    assert(ops.take(m) =~= ops);
}

/// Whatever the annotations, saving and restoring are balanced in what a stack
/// draws.
pub proof fn law_stack_is_balanced(stack: Seq<DrawCommand>, src: Option<Pixels>, offset: Point)
    requires
        sized(src),
    ensures
        nested(stack_ops(stack, src, offset)),
    decreases stack.len(),
{
    if stack.len() == 0 {
        assert forall|n: int| 0 <= n <= 0 implies level(
            #[trigger] stack_ops(stack, src, offset).take(n),
        ) >= 0 by {
            assert(stack_ops(stack, src, offset).take(n) =~= Seq::<PaintOp>::empty());
        }
    } else {
        law_stack_is_balanced(stack.drop_last(), src, offset);
        lemma_nested_command(&stack.last(), src, offset);
        lemma_nested_sum(
            stack_ops(stack.drop_last(), src, offset),
            command_ops(&stack.last(), src, offset),
        );
    }
}

/// The sum over a single pixel is that pixel's byte, the blue one being the first
/// of the four.
pub proof fn law_sum_of_one_pixel(src: Pixels, channel: int, x: int, y: int)
    requires
        0 <= channel <= 2,
    ensures
        block_sum(src, channel, x, x + 1, y, y + 1) == src.bytes()[src.row_bytes() * y + 4 * x
            + channel],
{
    reveal_with_fuel(block_sum, 2);
    reveal_with_fuel(row_sum, 2);
    let s = src.row_bytes();
    assert(y * s == s * y) by (nonlinear_arith);
}

proof fn lemma_row_splits(src: Pixels, channel: int, y: int, x0: int, m: int, x1: int)
    requires
        x0 <= m <= x1,
    ensures
        row_sum(src, channel, y, x0, x1) == row_sum(src, channel, y, x0, m) + row_sum(
            src,
            channel,
            y,
            m,
            x1,
        ),
    decreases x1 - m,
{
    if m < x1 {
        lemma_row_splits(src, channel, y, x0, m, x1 - 1);
    }
}

/// The sum over a block is the sum over its two halves, wherever a column or a row
/// parts it. Over no pixel at all it is nothing.
pub proof fn law_sum_splits(
    src: Pixels,
    channel: int,
    x0: int,
    mx: int,
    x1: int,
    y0: int,
    my: int,
    y1: int,
)
    requires
        x0 <= mx <= x1,
        y0 <= my <= y1,
    ensures
        block_sum(src, channel, x0, x1, y0, y1) == block_sum(src, channel, x0, mx, y0, y1)
            + block_sum(src, channel, mx, x1, y0, y1),
        block_sum(src, channel, x0, x1, y0, y1) == block_sum(src, channel, x0, x1, y0, my)
            + block_sum(src, channel, x0, x1, my, y1),
        block_sum(src, channel, x0, x0, y0, y1) == 0,
        block_sum(src, channel, x0, x1, y0, y0) == 0,
    decreases y1 - y0,
{
    if y0 < y1 {
        lemma_row_splits(src, channel, y1 - 1, x0, mx, x1);
        if my < y1 {
            law_sum_splits(src, channel, x0, mx, x1, y0, my, y1 - 1);
        } else {
            law_sum_splits(src, channel, x0, mx, x1, y0, y0, y1 - 1);
        }
    }
}

/// The part stands in the display list, in one piece.
pub open spec fn has_part<'a>(ops: Seq<PaintOp<'a>>, part: Seq<PaintOp<'a>>) -> bool {
    exists|i: int|
        0 <= i && i + part.len() <= ops.len() && #[trigger] ops.subrange(i, i + part.len()) == part
}

proof fn lemma_part_between<'a>(
    a: Seq<PaintOp<'a>>,
    b: Seq<PaintOp<'a>>,
    c: Seq<PaintOp<'a>>,
    part: Seq<PaintOp<'a>>,
)
    requires
        has_part(b, part),
    ensures
        has_part(a + b + c, part),
{
    let i = choose|i: int|
        0 <= i && i + part.len() <= b.len() && #[trigger] b.subrange(i, i + part.len()) == part;
    let j = a.len() + i;
    assert((a + b + c).subrange(j, j + part.len()) =~= b.subrange(i, i + part.len()));
}

proof fn lemma_row_has_cell(
    src: Pixels,
    ox: int,
    oy: int,
    bx: int,
    by: int,
    edges: Edges,
    block: int,
    k: int,
)
    requires
        0 <= k,
        0 < block,
        (bx + block * k) * UNIT < edges.right,
    ensures
        has_part(
            cell_row_ops(src, ox, oy, bx, by, edges, block),
            cell_ops(src, ox, oy, bx + block * k, by, edges, block),
        ),
    decreases k,
{
    let first = cell_ops(src, ox, oy, bx, by, edges, block);
    let rest = cell_row_ops(src, ox, oy, bx + block, by, edges, block);
    let none = Seq::<PaintOp>::empty();
    let cell = cell_ops(src, ox, oy, bx + block * k, by, edges, block);
    assert(block * k >= 0) by (nonlinear_arith)
        requires
            0 <= k,
            0 < block,
    ;
    if k == 0 {
        assert(block * k == 0) by (nonlinear_arith)
            requires
                k == 0,
        ;
        assert(cell == first);
        assert(first.subrange(0int, 0int + first.len()) =~= first);
        lemma_part_between(none, first, rest, cell);
        assert(none + first + rest =~= first + rest);
    } else {
        assert(bx + block + block * (k - 1) == bx + block * k) by (nonlinear_arith);
        lemma_row_has_cell(src, ox, oy, bx + block, by, edges, block, k - 1);
        lemma_part_between(first, rest, none, cell);
        assert(first + rest + none =~= first + rest);
    }
}

proof fn lemma_rows_have_cell(
    src: Pixels,
    ox: int,
    oy: int,
    bx: int,
    by: int,
    edges: Edges,
    block: int,
    k: int,
    m: int,
)
    requires
        0 <= k,
        0 <= m,
        0 < block,
        (bx + block * k) * UNIT < edges.right,
        (by + block * m) * UNIT < edges.bottom,
    ensures
        has_part(
            cell_rows_ops(src, ox, oy, bx, by, edges, block),
            cell_ops(src, ox, oy, bx + block * k, by + block * m, edges, block),
        ),
    decreases m,
{
    let first = cell_row_ops(src, ox, oy, bx, by, edges, block);
    let rest = cell_rows_ops(src, ox, oy, bx, by + block, edges, block);
    let none = Seq::<PaintOp>::empty();
    let cell = cell_ops(src, ox, oy, bx + block * k, by + block * m, edges, block);
    assert(block * m >= 0) by (nonlinear_arith)
        requires
            0 <= m,
            0 < block,
    ;
    if m == 0 {
        assert(block * m == 0) by (nonlinear_arith)
            requires
                m == 0,
        ;
        lemma_row_has_cell(src, ox, oy, bx, by, edges, block, k);
        lemma_part_between(none, first, rest, cell);
        assert(none + first + rest =~= first + rest);
    } else {
        assert(by + block + block * (m - 1) == by + block * m) by (nonlinear_arith);
        lemma_rows_have_cell(src, ox, oy, bx, by + block, edges, block, k, m - 1);
        lemma_part_between(first, rest, none, cell);
        assert(first + rest + none =~= first + rest);
    }
}

/// The operation sets the mean colour of the source's pixels in the columns
/// `x0 .. x1` of the rows `y0 .. y1`.
pub open spec fn is_mean_of(op: PaintOp, src: Pixels, x0: int, x1: int, y0: int, y1: int) -> bool {
    op matches PaintOp::SourceMean { r, g, b, n } && {
        &&& n == (x1 - x0) * (y1 - y0)
        &&& b == block_sum(src, 0, x0, x1, y0, y1)
        &&& g == block_sum(src, 1, x0, x1, y0, y1)
        &&& r == block_sum(src, 2, x0, x1, y0, y1)
    }
}

/// The operation outlines the rectangle between these edges.
pub open spec fn is_box(op: PaintOp, left: int, top: int, right: int, bottom: int) -> bool {
    op matches PaintOp::Rectangle { x, y, w, h } && {
        &&& x == left
        &&& y == top
        &&& x + w == right
        &&& y + h == bottom
    }
}

/// The display list paints a cell: it sets the mean colour of the source's pixels
/// in the columns `x0 .. x1` of the rows `y0 .. y1`, and fills the rectangle
/// between the given edges.
pub open spec fn paints_mean<'a>(
    ops: Seq<PaintOp<'a>>,
    src: Pixels,
    x0: int,
    x1: int,
    y0: int,
    y1: int,
    left: int,
    top: int,
    right: int,
    bottom: int,
) -> bool {
    exists|i: int|
        {
            &&& 0 <= i
            &&& i + 2 < ops.len()
            &&& is_mean_of(#[trigger] ops[i], src, x0, x1, y0, y1)
            &&& is_box(ops[i + 1], left, top, right, bottom)
            &&& ops[i + 2] is Fill
        }
}

proof fn lemma_part_of_three<'a>(ops: Seq<PaintOp<'a>>, part: Seq<PaintOp<'a>>)
    requires
        has_part(ops, part),
        part.len() == 3,
    ensures
        exists|i: int|
            {
                &&& 0 <= i
                &&& i + 2 < ops.len()
                &&& #[trigger] ops[i] == part[0]
                &&& ops[i + 1] == part[1]
                &&& ops[i + 2] == part[2]
            },
{
    let i = choose|i: int|
        0 <= i && i + part.len() <= ops.len() && #[trigger] ops.subrange(i, i + part.len()) == part;
    let piece = ops.subrange(i, i + 3);
    assert(piece[0] == ops[i] && piece[1] == ops[i + 1] && piece[2] == ops[i + 2]);
}

proof fn lemma_cell_mean(
    src: Pixels,
    ox: int,
    oy: int,
    bx: int,
    by: int,
    edges: Edges,
    size: int,
    x0: int,
    x1: int,
    y0: int,
    y1: int,
)
    requires
        sized(Some(src)),
        -2 * DRAW_LIMIT <= edges.left <= 2 * DRAW_LIMIT,
        -2 * DRAW_LIMIT <= edges.top <= 2 * DRAW_LIMIT,
        -2 * DRAW_LIMIT <= edges.right <= 2 * DRAW_LIMIT,
        -2 * DRAW_LIMIT <= edges.bottom <= 2 * DRAW_LIMIT,
        -2 * DRAW_LIMIT <= 1024 * bx < edges.right,
        -2 * DRAW_LIMIT <= 1024 * by < edges.bottom,
        2 <= size <= 0x7FFF_FFFF,
        x0 == if ox + bx < 0 { 0 } else { ox + bx },
        y0 == if oy + by < 0 { 0 } else { oy + by },
        x1 == if ox + bx + size > src.spec_width() { src.spec_width() } else { ox + bx + size },
        y1 == if oy + by + size > src.spec_height() { src.spec_height() } else { oy + by + size },
        x0 < x1,
        y0 < y1,
    ensures
        ({
            let cell = cell_ops(src, ox, oy, bx, by, edges, size);
            &&& cell.len() == 3
            &&& is_mean_of(cell[0], src, x0, x1, y0, y1)
            &&& is_box(
                cell[1],
                if 1024 * bx < edges.left { edges.left } else { 1024 * bx },
                if 1024 * by < edges.top { edges.top } else { 1024 * by },
                if 1024 * (bx + size) < edges.right { 1024 * (bx + size) } else { edges.right },
                if 1024 * (by + size) < edges.bottom { 1024 * (by + size) } else { edges.bottom },
            )
            &&& cell[2] is Fill
        }),
{
    lemma_block_sum(src, 0, x0, x1, y0, y1);
    lemma_block_sum(src, 1, x0, x1, y0, y1);
    lemma_block_sum(src, 2, x0, x1, y0, y1);
    assert(0 < (x1 - x0) * (y1 - y0) <= 32767 * 32767) by (nonlinear_arith)
        requires
            0 < x1 - x0 <= 32767,
            0 < y1 - y0 <= 32767,
    ;
}

/// A mosaic consists of square cells, side by side from the whole pixel of its
/// corner on. Each cell that the source shows through has one colour: the mean of
/// exactly those of the source's pixels that lie under the cell, at the selection's
/// place on the source. It fills the cell, up to the mosaic's own edges.
pub proof fn law_mosaic_cell_is_the_mean_of_its_pixels(
    cmd: &DrawCommand,
    src: Pixels,
    offset: Point,
    ox: int,
    oy: int,
    bx: int,
    by: int,
    size: int,
    column: int,
    row: int,
    x0: int,
    x1: int,
    y0: int,
    y1: int,
)
    requires
        sized(Some(src)),
        cmd.measurable(),
        *cmd matches DrawCommand::Mosaic { x, y, w, h, block } && {
            &&& units::counts_pixels(bx - size * column, x as int)
            &&& units::counts_pixels(by - size * row, y as int)
            &&& size == if block < 2 { 2int } else { block as int }
            &&& 1024 * bx < x + w
            &&& 1024 * by < y + h
        },
        units::counts_pixels(ox, offset.x as int),
        units::counts_pixels(oy, offset.y as int),
        0 <= column,
        0 <= row,
        x0 == if ox + bx < 0 { 0 } else { ox + bx },
        y0 == if oy + by < 0 { 0 } else { oy + by },
        x1 == if ox + bx + size > src.spec_width() { src.spec_width() } else { ox + bx + size },
        y1 == if oy + by + size > src.spec_height() { src.spec_height() } else { oy + by + size },
        x0 < x1,
        y0 < y1,
    ensures
        *cmd matches DrawCommand::Mosaic { x, y, w, h, .. } && paints_mean(
            command_ops(cmd, Some(src), offset),
            src,
            x0,
            x1,
            y0,
            y1,
            if 1024 * bx < x { x as int } else { 1024 * bx },
            if 1024 * by < y { y as int } else { 1024 * by },
            if 1024 * (bx + size) < x + w { 1024 * (bx + size) } else { x + w },
            if 1024 * (by + size) < y + h { 1024 * (by + size) } else { y + h },
        ),
{
    if let DrawCommand::Mosaic { x, y, w, h, block } = cmd {
        units::law_one_count_of_pixels(ox, offset.x as int);
        units::law_one_count_of_pixels(oy, offset.y as int);
        let sx = bx - size * column;
        let sy = by - size * row;
        units::law_one_count_of_pixels(sx, *x as int);
        units::law_one_count_of_pixels(sy, *y as int);
        let edges = edges_of(*x as int, *y as int, *w as int, *h as int);
        assert(sx + size * column == bx);
        assert(sy + size * row == by);
        assert(size * column >= 0 && size * row >= 0) by (nonlinear_arith)
            requires
                size >= 2,
                column >= 0,
                row >= 0,
        ;
        lemma_rows_have_cell(src, ox, oy, sx, sy, edges, size, column, row);
        let cell = cell_ops(src, ox, oy, bx, by, edges, size);
        let body = command_body(cmd, Some(src), offset);
        let ops = command_ops(cmd, Some(src), offset);
        lemma_part_between(seq![PaintOp::Save], body, seq![PaintOp::Restore], cell);
        lemma_cell_mean(src, ox, oy, bx, by, edges, size, x0, x1, y0, y1);
        lemma_part_of_three(ops, cell);
        let i = choose|i: int|
            {
                &&& 0 <= i
                &&& i + 2 < ops.len()
                &&& #[trigger] ops[i] == cell[0]
                &&& ops[i + 1] == cell[1]
                &&& ops[i + 2] == cell[2]
            };
        assert(is_mean_of(ops[i], src, x0, x1, y0, y1));
    }
}

proof fn lemma_row_is_of_cells(
    src: Pixels,
    ox: int,
    oy: int,
    bx: int,
    by: int,
    edges: Edges,
    block: int,
    i: int,
) -> (k: int)
    requires
        0 <= i < cell_row_ops(src, ox, oy, bx, by, edges, block).len(),
        0 < block,
    ensures
        0 <= k,
        (bx + block * k) * UNIT < edges.right,
        cell_ops(src, ox, oy, bx + block * k, by, edges, block).contains(
            cell_row_ops(src, ox, oy, bx, by, edges, block)[i],
        ),
    decreases units::greatest(0, edges.right - bx * UNIT),
{
    let first = cell_ops(src, ox, oy, bx, by, edges, block);
    assert(bx * UNIT < edges.right);
    if i < first.len() {
        assert(cell_row_ops(src, ox, oy, bx, by, edges, block)[i] == first[i]);
        assert(bx + block * 0 == bx);
        0
    } else {
        let j = lemma_row_is_of_cells(
            src,
            ox,
            oy,
            bx + block,
            by,
            edges,
            block,
            i - first.len(),
        );
        assert(bx + block + block * j == bx + block * (j + 1)) by (nonlinear_arith);
        j + 1
    }
}

proof fn lemma_rows_are_of_cells(
    src: Pixels,
    ox: int,
    oy: int,
    bx: int,
    by: int,
    edges: Edges,
    block: int,
    i: int,
) -> (p: (int, int))
    requires
        0 <= i < cell_rows_ops(src, ox, oy, bx, by, edges, block).len(),
        0 < block,
    ensures
        0 <= p.0,
        0 <= p.1,
        (bx + block * p.0) * UNIT < edges.right,
        (by + block * p.1) * UNIT < edges.bottom,
        cell_ops(src, ox, oy, bx + block * p.0, by + block * p.1, edges, block).contains(
            cell_rows_ops(src, ox, oy, bx, by, edges, block)[i],
        ),
    decreases units::greatest(0, edges.bottom - by * UNIT),
{
    let first = cell_row_ops(src, ox, oy, bx, by, edges, block);
    assert(by * UNIT < edges.bottom);
    if i < first.len() {
        let k = lemma_row_is_of_cells(src, ox, oy, bx, by, edges, block, i);
        assert(by + block * 0 == by);
        (k, 0)
    } else {
        let p = lemma_rows_are_of_cells(
            src,
            ox,
            oy,
            bx,
            by + block,
            edges,
            block,
            i - first.len(),
        );
        assert(by + block + block * p.1 == by + block * (p.1 + 1)) by (nonlinear_arith);
        (p.0, p.1 + 1)
    }
}

/// The operation sets the mean colour of a cell in this column and row of a mosaic:
/// of the source's pixels from the cell's left edge to its right edge and from its
/// upper to its lower edge, as far as the source has them.
pub open spec fn is_mean_of_cell(
    op: PaintOp,
    src: Pixels,
    ox: int,
    oy: int,
    bx: int,
    by: int,
    size: int,
) -> bool {
    is_mean_of(
        op,
        src,
        if ox + bx < 0 { 0 } else { ox + bx },
        if ox + bx + size > src.spec_width() { src.spec_width() } else { ox + bx + size },
        if oy + by < 0 { 0 } else { oy + by },
        if oy + by + size > src.spec_height() { src.spec_height() } else { oy + by + size },
    )
}

/// A mosaic has no colours but the means of its cells.
pub proof fn law_mosaic_has_no_other_colors(
    cmd: &DrawCommand,
    src: Pixels,
    offset: Point,
    ox: int,
    oy: int,
    sx: int,
    sy: int,
    size: int,
    i: int,
)
    requires
        sized(Some(src)),
        cmd.measurable(),
        *cmd matches DrawCommand::Mosaic { x, y, w, h, block } && {
            &&& units::counts_pixels(sx, x as int)
            &&& units::counts_pixels(sy, y as int)
            &&& size == if block < 2 { 2int } else { block as int }
        },
        units::counts_pixels(ox, offset.x as int),
        units::counts_pixels(oy, offset.y as int),
        0 <= i < command_ops(cmd, Some(src), offset).len(),
    ensures
        ({
            let op = command_ops(cmd, Some(src), offset)[i];
            &&& op is Save || op is Restore || op is Fill || op is Rectangle || op is SourceMean
            &&& op is SourceMean ==> exists|column: int, row: int|
                {
                    &&& 0 <= column
                    &&& 0 <= row
                    &&& #[trigger] is_mean_of_cell(
                        op,
                        src,
                        ox,
                        oy,
                        sx + size * column,
                        sy + size * row,
                        size,
                    )
                }
        }),
{
    if let DrawCommand::Mosaic { x, y, w, h, block } = cmd {
        units::law_one_count_of_pixels(ox, offset.x as int);
        units::law_one_count_of_pixels(oy, offset.y as int);
        units::law_one_count_of_pixels(sx, *x as int);
        units::law_one_count_of_pixels(sy, *y as int);
        let edges = edges_of(*x as int, *y as int, *w as int, *h as int);
        let body = command_body(cmd, Some(src), offset);
        let ops = command_ops(cmd, Some(src), offset);
        if 0 < i <= body.len() {
            assert(ops[i] == body[i - 1]);
            let (column, row) = lemma_rows_are_of_cells(
                src,
                ox,
                oy,
                sx,
                sy,
                edges,
                size,
                i - 1,
            );
            let bx = sx + size * column;
            let by = sy + size * row;
            let cell = cell_ops(src, ox, oy, bx, by, edges, size);
            let x0 = units::clamped(ox + bx, 0, src.spec_width());
            let y0 = units::clamped(oy + by, 0, src.spec_height());
            let x1 = units::clamped(ox + bx + size, 0, src.spec_width());
            let y1 = units::clamped(oy + by + size, 0, src.spec_height());
            assert(x0 < x1 && y0 < y1);
            lemma_block_sum(src, 0, x0, x1, y0, y1);
            lemma_block_sum(src, 1, x0, x1, y0, y1);
            lemma_block_sum(src, 2, x0, x1, y0, y1);
            assert(0 < (x1 - x0) * (y1 - y0) <= 32767 * 32767) by (nonlinear_arith)
                requires
                    0 < x1 - x0 <= 32767,
                    0 < y1 - y0 <= 32767,
            ;
            if ops[i] is SourceMean {
                assert(is_mean_of_cell(ops[i], src, ox, oy, bx, by, size));
            }
        }
    }
}

/// Without a source a mosaic draws nothing.
pub proof fn law_mosaic_needs_a_source(cmd: &DrawCommand, offset: Point)
    requires
        *cmd is Mosaic,
    ensures
        command_ops(cmd, None, offset) == seq![PaintOp::Save, PaintOp::Restore],
{
    assert(command_ops(cmd, None, offset) =~= seq![PaintOp::Save, PaintOp::Restore]);
}

/// A rectangle is stroked along its own edges, in its own colour and width.
pub proof fn law_rectangle_is_stroked(cmd: &DrawCommand, src: Option<Pixels>, offset: Point)
    requires
        *cmd is Rect,
    ensures
        *cmd matches DrawCommand::Rect { x, y, w, h, style } && {
            let ops = command_ops(cmd, src, offset);
            &&& ops.len() == 6
            &&& ops[0] is Save
            &&& ops[1] == PaintOp::LineWidth(style.width)
            &&& ops[2] == PaintOp::Source(style.color)
            &&& ops[3] == (PaintOp::Rectangle { x, y, w, h })
            &&& ops[4] is Stroke
            &&& ops[5] is Restore
        },
{
}

/// A line is stroked from its first point to its second, with round ends, in its
/// own colour and width.
pub proof fn law_line_is_stroked(cmd: &DrawCommand, src: Option<Pixels>, offset: Point)
    requires
        *cmd is Line,
    ensures
        *cmd matches DrawCommand::Line { x1, y1, x2, y2, style } && {
            let ops = command_ops(cmd, src, offset);
            &&& ops.len() == 8
            &&& ops[0] is Save
            &&& ops[1] == PaintOp::LineWidth(style.width)
            &&& ops[2] is RoundCap
            &&& ops[3] == PaintOp::Source(style.color)
            &&& ops[4] == PaintOp::MoveTo(Point { x: x1, y: y1 })
            &&& ops[5] == PaintOp::LineTo(Point { x: x2, y: y2 })
            &&& ops[6] is Stroke
            &&& ops[7] is Restore
        },
{
}

/// An arrow is the line of the same ends and style, with a head at its second
/// point. The head's strokes are four times as long as the line is wide, and at
/// least twelve pixels; they stand at 25 degrees to the line.
pub proof fn law_arrow_is_a_line_with_a_head(
    arrow: &DrawCommand,
    line: &DrawCommand,
    src: Option<Pixels>,
    offset: Point,
)
    requires
        arrow.measurable(),
        *arrow matches DrawCommand::Arrow { x1, y1, x2, y2, style } && *line == (DrawCommand::Line {
            x1,
            y1,
            x2,
            y2,
            style,
        }),
    ensures
        *arrow matches DrawCommand::Arrow { x1, y1, x2, y2, style } && {
            let ops = command_ops(arrow, src, offset);
            &&& ops.len() == 10
            &&& ops.take(7) == command_ops(line, src, offset).take(7)
            &&& ops[7] matches PaintOp::ArrowHead { from, to, length, degrees } && {
                &&& from == (Point { x: x1, y: y1 })
                &&& to == (Point { x: x2, y: y2 })
                &&& length == if style.width < 3072 { 12288 } else { 4 * style.width }
                &&& degrees == 25
            }
            &&& ops[8] is Stroke
            &&& ops[9] is Restore
        },
{
    assert(command_ops(arrow, src, offset).take(7) =~= command_ops(line, src, offset).take(7));
}

/// A brush line goes through all of its points, in their order, with round ends
/// and corners, in its own colour and width. With fewer than two points nothing is
/// drawn.
pub proof fn law_brush_goes_through_its_points(
    cmd: &DrawCommand,
    src: Option<Pixels>,
    offset: Point,
    i: int,
)
    requires
        *cmd is Brush,
    ensures
        *cmd matches DrawCommand::Brush { points, style } && {
            let ops = command_ops(cmd, src, offset);
            let n = points@.len() as int;
            &&& n < 2 ==> ops.len() == 2
            &&& n >= 2 ==> {
                &&& ops.len() == n + 7
                &&& ops[0] is Save
                &&& ops[1] == PaintOp::LineWidth(style.width)
                &&& ops[2] is RoundCap
                &&& ops[3] is RoundJoin
                &&& ops[4] == PaintOp::Source(style.color)
                &&& ops[5] == PaintOp::MoveTo(points@[0])
                &&& 0 < i < n ==> ops[i + 5] == PaintOp::LineTo(points@[i])
                &&& ops[n + 5] is Stroke
                &&& ops[n + 6] is Restore
            }
        },
{
}

/// A text starts at the left edge of its box, on a line that lies the font's size
/// below the box's upper edge, in its own colour.
pub proof fn law_text_hangs_below_its_corner(
    cmd: &DrawCommand,
    src: Option<Pixels>,
    offset: Point,
)
    requires
        cmd.measurable(),
        *cmd is Text,
    ensures
        *cmd matches DrawCommand::Text { x, y, text, size, color } && {
            let ops = command_ops(cmd, src, offset);
            &&& ops.len() == 6
            &&& ops[0] is Save
            &&& ops[1] == PaintOp::FontSize(size)
            &&& ops[2] == PaintOp::Source(color)
            &&& ops[3] matches PaintOp::MoveTo(p) && p.x == x && p.y == y + size
            &&& ops[4] == PaintOp::ShowText(&text)
            &&& ops[5] is Restore
        },
{
}

/// An ellipse is stroked in its own colour and width, along the path inscribed in
/// its own box.
pub proof fn law_ellipse_is_stroked(cmd: &DrawCommand, src: Option<Pixels>, offset: Point)
    requires
        *cmd is Ellipse,
    ensures
        *cmd matches DrawCommand::Ellipse { x, y, w, h, style } && {
            let ops = command_ops(cmd, src, offset);
            &&& ops.len() == 12
            &&& ops[0] is Save
            &&& ops[1] == PaintOp::LineWidth(style.width)
            &&& ops[2] == PaintOp::Source(style.color)
            &&& ops.subrange(3, 10) == ellipse_ops(x as int, y as int, w as int, h as int)
            &&& ops[10] is Stroke
            &&& ops[11] is Restore
        },
{
    if let DrawCommand::Ellipse { x, y, w, h, .. } = cmd {
        assert(command_ops(cmd, src, offset).subrange(3, 10) =~= ellipse_ops(
            *x as int,
            *y as int,
            *w as int,
            *h as int,
        ));
    }
}

/// The control points of an ellipse's curves lie 0.5522847498 of the radius from
/// its axes, to the nearest coordinate unit.
pub proof fn law_bulge_of_a_radius(radius: int)
    ensures
        -10000000000 <= 2 * (5522847498 * radius - 10000000000 * bulge(radius)) <= 10000000000,
{
}

/// The four curves of an ellipse go once around it, from the middle of the right
/// edge by way of the lower, the left and the upper one. Each leaves along the edge
/// it starts at and arrives along the edge it ends at.
pub proof fn law_ellipse_goes_around(x: int, y: int, w: int, h: int, cx: int, cy: int)
    requires
        -DRAW_LIMIT <= x <= DRAW_LIMIT,
        -DRAW_LIMIT <= y <= DRAW_LIMIT,
        -DRAW_LIMIT <= w <= DRAW_LIMIT,
        -DRAW_LIMIT <= h <= DRAW_LIMIT,
        w - 1 <= 2 * (cx - x) <= w,
        h - 1 <= 2 * (cy - y) <= h,
    ensures
        ({
            let ops = ellipse_ops(x, y, w, h);
            let r = x + w;
            let b = y + h;
            &&& ops.len() == 7
            &&& ops[0] is NewPath
            &&& ops[1] matches PaintOp::MoveTo(p) && p.x == r && p.y == cy
            &&& ops[2] matches PaintOp::CurveTo { c1, c2, to } && {
                &&& c1.x == r && c1.y - cy == bulge(b - cy)
                &&& c2.x - cx == bulge(r - cx) && c2.y == b
                &&& to.x == cx && to.y == b
            }
            &&& ops[3] matches PaintOp::CurveTo { c1, c2, to } && {
                &&& cx - c1.x == bulge(cx - x) && c1.y == b
                &&& c2.x == x && c2.y - cy == bulge(b - cy)
                &&& to.x == x && to.y == cy
            }
            &&& ops[4] matches PaintOp::CurveTo { c1, c2, to } && {
                &&& c1.x == x && cy - c1.y == bulge(cy - y)
                &&& cx - c2.x == bulge(cx - x) && c2.y == y
                &&& to.x == cx && to.y == y
            }
            &&& ops[5] matches PaintOp::CurveTo { c1, c2, to } && {
                &&& c1.x - cx == bulge(r - cx) && c1.y == y
                &&& c2.x == r && cy - c2.y == bulge(cy - y)
                &&& to.x == r && to.y == cy
            }
            &&& ops[6] is ClosePath
        }),
{
    assert(x + w / 2 == cx);
    assert(y + h / 2 == cy);
    lemma_bulge(cx - x);
    lemma_bulge(x + w - cx);
    lemma_bulge(cy - y);
    lemma_bulge(y + h - cy);
}

/// A stack of one command draws that command, and an empty one draws nothing.
pub proof fn law_stack_of_one(cmd: DrawCommand, src: Option<Pixels>, offset: Point)
    ensures
        stack_ops(seq![], src, offset) == Seq::<PaintOp>::empty(),
        stack_ops(seq![cmd], src, offset) == command_ops(&cmd, src, offset),
{
    let one = seq![cmd];
    assert(one.last() == cmd);
    assert(one.drop_last() =~= seq![]);
    assert(stack_ops(seq![], src, offset) =~= Seq::<PaintOp>::empty());
    assert(stack_ops(one, src, offset) =~= command_ops(&cmd, src, offset));
}

} // verus!
