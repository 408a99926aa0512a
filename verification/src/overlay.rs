//! What the overlay windows show: the mask, the selection's border and size, the
//! annotations and the magnifier. Also what the finished image consists of.

use crate::desktop::ORIGIN_LIMIT;
use crate::drag::{Drag, SelectorState};
use crate::image::{Pixels, MAX_SIDE};
use crate::render::{self, render_command, render_stack, PaintOp};
use crate::selection::SelectionRect;
use crate::selector::{MagnifierConfig, Selector};
use crate::text::{self, color_label, length_label};
use crate::tools::{self, Color, DrawCommand, DRAW_LIMIT};
use crate::units::{self, clamp_of, to_pixels, Point, LIMIT, REACH, UNIT};
use vstd::prelude::*;

verus! {

/// The dark veil over everything that is not selected.
pub open spec fn veil() -> Color {
    Color(30, 40, 55, 650)
}

/// The blue of frames and lenses, with the given opacity.
pub open spec fn accent(alpha: u16) -> Color {
    Color(231, 510, 965, alpha)
}

/// The veil over a window of the given size. A selection is left out of it, as
/// far as it lies in the window.
pub open spec fn mask_ops<'a>(w: i64, h: i64, sel: SelectionRect, state: SelectorState) -> Seq<
    PaintOp<'a>,
> {
    let x0 = units::clamped(sel.x as int, 0, w as int);
    let y0 = units::clamped(sel.y as int, 0, h as int);
    let x1 = units::clamped(sel.right(), 0, w as int);
    let y1 = units::clamped(sel.bottom(), 0, h as int);
    if state is Idle || sel.trivial() {
        seq![
            PaintOp::Source(veil()),
            PaintOp::Rectangle { x: 0, y: 0, w, h },
            PaintOp::Fill,
        ]
    } else if x0 < x1 && y0 < y1 {
        seq![
            PaintOp::Save,
            PaintOp::EvenOddFill,
            PaintOp::Source(veil()),
            PaintOp::Rectangle { x: 0, y: 0, w, h },
            PaintOp::Rectangle {
                x: x0 as i64,
                y: y0 as i64,
                w: (x1 - x0) as i64,
                h: (y1 - y0) as i64,
            },
            PaintOp::Fill,
            PaintOp::Restore,
        ]
    } else {
        seq![
            PaintOp::Save,
            PaintOp::EvenOddFill,
            PaintOp::Source(veil()),
            PaintOp::Rectangle { x: 0, y: 0, w, h },
            PaintOp::Fill,
            PaintOp::Restore,
        ]
    }
}

/// Veils what is not selected.
pub fn draw_mask<'a>(
    out: &mut Vec<PaintOp<'a>>,
    w: i64,
    h: i64,
    sel: &SelectionRect,
    state: SelectorState,
)
    requires
        sel.measurable(),
        0 <= w <= LIMIT,
        0 <= h <= LIMIT,
    ensures
        final(out)@ == old(out)@ + mask_ops(w, h, *sel, state),
{
    let ghost before = out@;
    if state == SelectorState::Idle || sel.is_trivial() {
        out.push(PaintOp::Source(Color(30, 40, 55, 650)));
        out.push(PaintOp::Rectangle { x: 0, y: 0, w, h });
        out.push(PaintOp::Fill);
    } else {
        let x0: i64 = clamp_of(sel.x, 0, w);
        let y0: i64 = clamp_of(sel.y, 0, h);
        let x1: i64 = clamp_of(sel.x + sel.w, 0, w);
        let y1: i64 = clamp_of(sel.y + sel.h, 0, h);
        out.push(PaintOp::Save);
        out.push(PaintOp::EvenOddFill);
        out.push(PaintOp::Source(Color(30, 40, 55, 650)));
        out.push(PaintOp::Rectangle { x: 0, y: 0, w, h });
        if x1 > x0 && y1 > y0 {
            out.push(PaintOp::Rectangle { x: x0, y: y0, w: x1 - x0, h: y1 - y0 });
        }
        out.push(PaintOp::Fill);
        out.push(PaintOp::Restore);
    }
    assert(out@ =~= before + mask_ops(w, h, *sel, state));
}

/// A square grip of twelve pixels around the point.
pub open spec fn grip_ops<'a>(x: int, y: int) -> Seq<PaintOp<'a>> {
    let square = PaintOp::Rectangle {
        x: (x - 6144) as i64,
        y: (y - 6144) as i64,
        w: 12288,
        h: 12288,
    };
    seq![
        PaintOp::Source(Color(1000, 1000, 1000, 1000)),
        square,
        PaintOp::Fill,
        PaintOp::Source(accent(950)),
        PaintOp::LineWidth(2048),
        square,
        PaintOp::Stroke,
    ]
}

/// The outline of the selection, in a broad faint and a narrow strong line.
pub open spec fn outline_ops<'a>(sel: SelectionRect) -> Seq<PaintOp<'a>> {
    let rect = PaintOp::Rectangle { x: sel.x, y: sel.y, w: sel.w, h: sel.h };
    seq![
        PaintOp::Save,
        PaintOp::Source(accent(200)),
        PaintOp::LineWidth(6144),
        rect,
        PaintOp::Stroke,
        PaintOp::Source(accent(950)),
        PaintOp::LineWidth(2048),
        rect,
        PaintOp::Stroke,
    ]
}

/// The outline with grips at the corners and at the middle of the edges. A
/// trivial selection has no border.
pub open spec fn border_ops<'a>(sel: SelectionRect) -> Seq<PaintOp<'a>> {
    if sel.trivial() {
        seq![]
    } else {
        let l = sel.x as int;
        let t = sel.y as int;
        let r = sel.right();
        let b = sel.bottom();
        let cx = l + sel.w / 2;
        let cy = t + sel.h / 2;
        outline_ops(sel) + grip_ops(l, t) + grip_ops(cx, t) + grip_ops(r, t) + grip_ops(r, cy)
            + grip_ops(r, b) + grip_ops(cx, b) + grip_ops(l, b) + grip_ops(l, cy)
            + seq![PaintOp::Restore]
    }
}

fn push_grip<'a>(out: &mut Vec<PaintOp<'a>>, x: i64, y: i64)
    requires
        -3 * LIMIT <= x <= 3 * LIMIT,
        -3 * LIMIT <= y <= 3 * LIMIT,
    ensures
        final(out)@ == old(out)@ + grip_ops(x as int, y as int),
{
    let ghost before = out@;
    let gx: i64 = x - 6 * UNIT;
    let gy: i64 = y - 6 * UNIT;
    out.push(PaintOp::Source(Color(1000, 1000, 1000, 1000)));
    out.push(PaintOp::Rectangle { x: gx, y: gy, w: 12 * UNIT, h: 12 * UNIT });
    out.push(PaintOp::Fill);
    out.push(PaintOp::Source(Color(231, 510, 965, 950)));
    out.push(PaintOp::LineWidth(2 * UNIT));
    out.push(PaintOp::Rectangle { x: gx, y: gy, w: 12 * UNIT, h: 12 * UNIT });
    out.push(PaintOp::Stroke);
    assert(out@ =~= before + grip_ops(x as int, y as int));
}

/// Draws the border of the selection.
pub fn draw_selection_border<'a>(out: &mut Vec<PaintOp<'a>>, sel: &SelectionRect)
    requires
        sel.measurable(),
    ensures
        final(out)@ == old(out)@ + border_ops(*sel),
{
    let ghost before = out@;
    if sel.is_trivial() {
        assert(out@ =~= before + border_ops(*sel));
        return;
    }
    let rect: PaintOp<'a> = PaintOp::Rectangle { x: sel.x, y: sel.y, w: sel.w, h: sel.h };
    out.push(PaintOp::Save);
    out.push(PaintOp::Source(Color(231, 510, 965, 200)));
    out.push(PaintOp::LineWidth(6 * UNIT));
    out.push(rect);
    out.push(PaintOp::Stroke);
    out.push(PaintOp::Source(Color(231, 510, 965, 950)));
    out.push(PaintOp::LineWidth(2 * UNIT));
    out.push(rect);
    out.push(PaintOp::Stroke);
    assert(out@ =~= before + outline_ops(*sel));
    let r: i64 = sel.x + sel.w;
    let b: i64 = sel.y + sel.h;
    let cx: i64 = sel.x + sel.w / 2;
    let cy: i64 = sel.y + sel.h / 2;
    push_grip(out, sel.x, sel.y);
    push_grip(out, cx, sel.y);
    push_grip(out, r, sel.y);
    push_grip(out, r, cy);
    push_grip(out, r, b);
    push_grip(out, cx, b);
    push_grip(out, sel.x, b);
    push_grip(out, sel.x, cy);
    out.push(PaintOp::Restore);
    assert(out@ =~= before + border_ops(*sel));
}

/// The texts of the size read-out.
#[derive(Debug)]
pub struct Readout {
    pub width: String,
    pub separator: String,
    pub height: String,
}

impl Readout {
    /// The texts are the size of the selection: its sides in whole pixels, and a
    /// cross between them.
    pub open spec fn tells(self, sel: SelectionRect) -> bool {
        &&& self.width@ == text::decimal(units::even_pixels(sel.w as int) as nat)
        &&& self.separator@ == " \u{d7} "@
        &&& self.height@ == text::decimal(units::even_pixels(sel.h as int) as nat)
    }
}

/// The space that the read-out's texts take, in coordinate units: the width of
/// each and the height of the first.
#[derive(Debug, Clone, Copy, PartialEq, Eq, Structural)]
pub struct ReadoutExtents {
    pub width: i64,
    pub separator: i64,
    pub height: i64,
    pub line: i64,
}

impl ReadoutExtents {
    pub open spec fn fits(self) -> bool {
        &&& -REACH <= self.width <= REACH
        &&& -REACH <= self.separator <= REACH
        &&& -REACH <= self.height <= REACH
        &&& -REACH <= self.line <= REACH
    }

    /// The extents, with the fallback of twenty pixels for a width and twelve
    /// for the height where a text could not be measured.
    pub fn measured(
        width: Option<i64>,
        separator: Option<i64>,
        height: Option<i64>,
        line: Option<i64>,
    ) -> (r: ReadoutExtents)
        ensures
            r.width == (match width {
                Some(v) => v,
                None => 20480i64,
            }),
            r.separator == (match separator {
                Some(v) => v,
                None => 20480i64,
            }),
            r.height == (match height {
                Some(v) => v,
                None => 20480i64,
            }),
            r.line == (match line {
                Some(v) => v,
                None => 12288i64,
            }),
    {
        ReadoutExtents {
            width: width.unwrap_or(20 * UNIT),
            separator: separator.unwrap_or(20 * UNIT),
            height: height.unwrap_or(20 * UNIT),
            line: line.unwrap_or(12 * UNIT),
        }
    }
}

/// The size of a selection in words.
pub fn size_readout(sel: &SelectionRect) -> (r: Readout)
    requires
        sel.upright(),
    ensures
        r.tells(*sel),
{
    Readout {
        width: length_label(sel.w),
        separator: " \u{d7} ".to_owned(),
        height: length_label(sel.h),
    }
}

/// The upper edge of a read-out of height `h`: above the selection where there
/// is room for it on the screen, else inside.
pub open spec fn readout_top(sel: SelectionRect, h: int) -> int {
    if sel.y - h - 6144 >= 0 {
        sel.y - h - 6144
    } else {
        sel.y + 6144
    }
}

/// The size read-out at the selection's corner.
pub open spec fn readout_ops<'a>(
    sel: SelectionRect,
    readout: &'a Readout,
    ext: ReadoutExtents,
) -> Seq<PaintOp<'a>> {
    let w = ext.width + ext.separator + ext.height + 20480;
    let h = ext.line + 10240;
    let top = readout_top(sel, h);
    let x1 = sel.x + 10240;
    let x2 = x1 + ext.width;
    let x3 = x2 + ext.separator;
    let base = (top + 5120 + ext.line) as i64;
    let frame = PaintOp::Rectangle { x: sel.x, y: top as i64, w: w as i64, h: h as i64 };
    seq![
        PaintOp::FontSize(12288),
        PaintOp::Save,
        PaintOp::Source(Color(0, 0, 0, 750)),
        frame,
        PaintOp::Fill,
        PaintOp::Source(Color(1000, 1000, 1000, 100)),
        PaintOp::LineWidth(1024),
        frame,
        PaintOp::Stroke,
        PaintOp::Source(accent(1000)),
        PaintOp::MoveTo(Point { x: x1 as i64, y: base }),
        PaintOp::ShowText(&readout.width),
        PaintOp::Source(Color(1000, 1000, 1000, 1000)),
        PaintOp::MoveTo(Point { x: x2 as i64, y: base }),
        PaintOp::ShowText(&readout.separator),
        PaintOp::Source(accent(1000)),
        PaintOp::MoveTo(Point { x: x3 as i64, y: base }),
        PaintOp::ShowText(&readout.height),
        PaintOp::Restore,
    ]
}

/// Draws the size read-out of the selection.
pub fn draw_size_readout<'a>(
    out: &mut Vec<PaintOp<'a>>,
    sel: &SelectionRect,
    readout: &'a Readout,
    ext: ReadoutExtents,
)
    requires
        sel.measurable(),
        readout.tells(*sel),
        ext.fits(),
    ensures
        final(out)@ == old(out)@ + readout_ops(*sel, readout, ext),
{
    let ghost before = out@;
    let pad_x: i64 = 10 * UNIT;
    let pad_y: i64 = 5 * UNIT;
    let box_w: i64 = ext.width + ext.separator + ext.height + 2 * pad_x;
    let box_h: i64 = ext.line + 2 * pad_y;
    let above: i64 = sel.y - box_h - 6 * UNIT;
    let top: i64 = if above >= 0 {
        above
    } else {
        sel.y + 6 * UNIT
    };
    let frame: PaintOp<'a> = PaintOp::Rectangle { x: sel.x, y: top, w: box_w, h: box_h };
    let base: i64 = top + pad_y + ext.line;
    let x1: i64 = sel.x + pad_x;
    let x2: i64 = x1 + ext.width;
    let x3: i64 = x2 + ext.separator;
    out.push(PaintOp::FontSize(12 * UNIT));
    out.push(PaintOp::Save);
    out.push(PaintOp::Source(Color(0, 0, 0, 750)));
    out.push(frame);
    out.push(PaintOp::Fill);
    out.push(PaintOp::Source(Color(1000, 1000, 1000, 100)));
    out.push(PaintOp::LineWidth(UNIT));
    out.push(frame);
    out.push(PaintOp::Stroke);
    out.push(PaintOp::Source(Color(231, 510, 965, 1000)));
    out.push(PaintOp::MoveTo(Point { x: x1, y: base }));
    out.push(PaintOp::ShowText(&readout.width));
    out.push(PaintOp::Source(Color(1000, 1000, 1000, 1000)));
    out.push(PaintOp::MoveTo(Point { x: x2, y: base }));
    out.push(PaintOp::ShowText(&readout.separator));
    out.push(PaintOp::Source(Color(231, 510, 965, 1000)));
    out.push(PaintOp::MoveTo(Point { x: x3, y: base }));
    out.push(PaintOp::ShowText(&readout.height));
    out.push(PaintOp::Restore);
    assert(out@ =~= before + readout_ops(*sel, readout, ext));
}

/// The red, green and blue of a pixel, and black outside the image.
pub open spec fn rgb_at(src: Pixels, x: int, y: int) -> (u8, u8, u8) {
    if src.has(x, y) {
        let (b, g, r, _a) = src.pixel(x, y);
        (r, g, b)
    } else {
        (0u8, 0u8, 0u8)
    }
}

/// Reads the square of `grid` by `grid` pixels, row by row, whose upper left
/// pixel lies `half` to the left of and above the given one.
pub fn read_pixel_block(src: &Pixels, cx: i32, cy: i32, grid: usize, half: i32) -> (r: Vec<
    (u8, u8, u8),
>)
    requires
        grid * grid <= usize::MAX,
    ensures
        r@.len() == grid * grid,
        forall|gx: int, gy: int|
            0 <= gx < grid && 0 <= gy < grid ==> #[trigger] r@[gy * grid + gx] == rgb_at(
                *src,
                cx + gx - half,
                cy + gy - half,
            ),
{
    assert(grid <= 0xFFFF_FFFF) by (nonlinear_arith)
        requires
            grid * grid <= 0xFFFF_FFFF_FFFF_FFFF,
    ;
    let w: i64 = src.width() as i64;
    let h: i64 = src.height() as i64;
    let mut out: Vec<(u8, u8, u8)> = Vec::new();
    let mut gy: usize = 0;
    while gy < grid
        invariant
            gy <= grid,
            grid <= 0xFFFF_FFFF,
            w == src.spec_width(),
                w <= MAX_SIDE,
                h <= MAX_SIDE,
            h == src.spec_height(),
            out@.len() == gy * grid,
            forall|x: int, y: int|
                0 <= x < grid && 0 <= y < gy ==> #[trigger] out@[y * grid + x] == rgb_at(
                    *src,
                    cx + x - half,
                    cy + y - half,
                ),
        decreases grid - gy,
    {
        let mut gx: usize = 0;
        while gx < grid
            invariant
                gx <= grid,
                gy < grid,
                grid <= 0xFFFF_FFFF,
                w == src.spec_width(),
                w <= MAX_SIDE,
                h <= MAX_SIDE,
                h == src.spec_height(),
                out@.len() == gy * grid + gx,
                forall|x: int, y: int|
                    0 <= x < grid && 0 <= y < gy || 0 <= x < gx && y == gy
                        ==> #[trigger] out@[y * grid + x] == rgb_at(
                        *src,
                        cx + x - half,
                        cy + y - half,
                    ),
            decreases grid - gx,
        {
            let x: i64 = cx as i64 + gx as i64 - half as i64;
            let y: i64 = cy as i64 + gy as i64 - half as i64;
            let ghost before = out@;
            if x < 0 || y < 0 || x >= w || y >= h {
                out.push((0, 0, 0));
            } else {
                let p: (u8, u8, u8, u8) = src.get(x as i32, y as i32);
                out.push((p.2, p.1, p.0));
            }
            proof {
                assert forall|a: int, b: int|
                    0 <= a < grid && 0 <= b < gy || 0 <= a < gx + 1 && b == gy implies #[trigger] out@[b
                    * grid + a] == rgb_at(*src, cx + a - half, cy + b - half) by {
                    if b < gy {
                        assert(b * grid + a < gy * grid) by (nonlinear_arith)
                            requires
                                0 <= a < grid,
                                0 <= b < gy,
                        ;
                        assert(b * grid + a >= 0) by (nonlinear_arith)
                            requires
                                0 <= a < grid,
                                0 <= b < gy,
                        ;
                        assert(before[b * grid + a] == out@[b * grid + a]);
                    } else if a < gx {
                        assert(b * grid + a >= 0) by (nonlinear_arith)
                            requires
                                0 <= a < grid,
                                0 <= b,
                        ;
                        assert(before[b * grid + a] == out@[b * grid + a]);
                    }
                }
            }
            gx = gx + 1;
        }
        assert((gy + 1) * grid == gy * grid + grid) by (nonlinear_arith);
        gy = gy + 1;
    }
    out
}

/// The number of magnified pixels in a row and in a column, the index of the
/// pixel under the pointer among them, and the size of a magnified pixel.
pub const LENS_GRID: usize = 8;

pub const LENS_HALF: i32 = 4;

pub const LENS_CELL: i64 = 12288;

/// One magnified pixel of a lens whose squares begin at `x0`, `y0`.
pub open spec fn lens_cell_ops<'a>(src: Pixels, cx: int, cy: int, x0: int, y0: int, k: int) -> Seq<
    PaintOp<'a>,
> {
    let gx = k % 8;
    let gy = k / 8;
    let (r, g, b) = rgb_at(src, cx + gx - LENS_HALF, cy + gy - LENS_HALF);
    seq![
        PaintOp::SourceRgb { r, g, b },
        PaintOp::Rectangle {
            x: (x0 + gx * LENS_CELL) as i64,
            y: (y0 + gy * LENS_CELL) as i64,
            w: LENS_CELL,
            h: LENS_CELL,
        },
        PaintOp::Fill,
    ]
}

/// The first `n` magnified pixels, row by row.
pub open spec fn lens_cells_ops<'a>(
    src: Pixels,
    cx: int,
    cy: int,
    x0: int,
    y0: int,
    n: int,
) -> Seq<PaintOp<'a>>
    decreases n,
{
    if n <= 0 {
        seq![]
    } else {
        lens_cells_ops(src, cx, cy, x0, y0, n - 1) + lens_cell_ops(src, cx, cy, x0, y0, n - 1)
    }
}

/// The lens, up to its magnified pixels.
pub open spec fn lens_head_ops<'a>(mx: int, my: int, r: int) -> Seq<PaintOp<'a>> {
    seq![
        PaintOp::Save,
        PaintOp::Circle { x: mx as i64, y: my as i64, r: r as i64 },
        PaintOp::Clip,
        PaintOp::Source(Color(100, 110, 140, 1000)),
        PaintOp::Rectangle {
            x: (mx - r) as i64,
            y: (my - r) as i64,
            w: (r * 2) as i64,
            h: (r * 2) as i64,
        },
        PaintOp::Fill,
    ]
}

/// The rest of the lens: the mark on the pixel under the pointer, the caption
/// and the rim.
pub open spec fn lens_tail_ops<'a>(
    mx: int,
    my: int,
    r: int,
    caption: &'a String,
    caption_w: int,
) -> Seq<PaintOp<'a>> {
    let tx = mx - caption_w / 2;
    let ty = my + r - 8192;
    seq![
        PaintOp::Source(accent(950)),
        PaintOp::LineWidth(2048),
        PaintOp::Rectangle { x: mx as i64, y: my as i64, w: 24576, h: 24576 },
        PaintOp::Stroke,
        PaintOp::Restore,
        PaintOp::Save,
        PaintOp::FontSize(10240),
        PaintOp::Source(Color(0, 0, 0, 600)),
        PaintOp::Rectangle {
            x: (tx - 4096) as i64,
            y: (ty - 10240) as i64,
            w: (caption_w + 8192) as i64,
            h: 14336,
        },
        PaintOp::Fill,
        PaintOp::Source(Color(850, 880, 920, 1000)),
        PaintOp::MoveTo(Point { x: tx as i64, y: ty as i64 }),
        PaintOp::ShowText(caption),
        PaintOp::Restore,
        PaintOp::Save,
        PaintOp::Source(accent(250)),
        PaintOp::LineWidth(6144),
        PaintOp::Circle { x: mx as i64, y: my as i64, r: r as i64 },
        PaintOp::Stroke,
        PaintOp::Source(accent(950)),
        PaintOp::LineWidth(3072),
        PaintOp::Circle { x: mx as i64, y: my as i64, r: r as i64 },
        PaintOp::Stroke,
        PaintOp::Restore,
    ]
}

/// The magnifier for a pointer that is at `at` in the image and at `local` in
/// the window.
pub open spec fn magnifier_ops<'a>(
    src: Pixels,
    at: Point,
    local: Point,
    cfg: MagnifierConfig,
    caption: &'a String,
    caption_w: int,
) -> Seq<PaintOp<'a>> {
    let mx = local.x + cfg.offset_x;
    let my = local.y + cfg.offset_y;
    lens_head_ops(mx, my, cfg.radius as int) + lens_cells_ops(
        src,
        units::whole(at.x as int),
        units::whole(at.y as int),
        mx - 4 * LENS_CELL,
        my - 4 * LENS_CELL,
        64,
    ) + lens_tail_ops(mx, my, cfg.radius as int, caption, caption_w)
}

/// The lens is small and near.
pub open spec fn modest(cfg: MagnifierConfig) -> bool {
    &&& 0 <= cfg.radius <= REACH
    &&& -REACH <= cfg.offset_x <= REACH
    &&& -REACH <= cfg.offset_y <= REACH
}

/// The caption is the colour of the pixel at the point.
pub open spec fn names_color(caption: String, src: Pixels, at: Point) -> bool {
    let (r, g, b) = rgb_at(src, units::whole(at.x as int), units::whole(at.y as int));
    caption@ == text::color_caption(r, g, b)
}

/// The caption of the magnifier: the colour of the pixel under the pointer.
pub fn magnifier_caption(src: &Pixels, at: Point) -> (t: String)
    requires
        at.within(REACH as int),
    ensures
        names_color(t, *src, at),
{
    let x: i32 = to_pixels(at.x);
    let y: i32 = to_pixels(at.y);
    let block: Vec<(u8, u8, u8)> = read_pixel_block(src, x, y, 1, 0);
    proof {
        let gx: int = 0;
        let gy: int = 0;
        assert(block@[gy * 1usize + gx] == rgb_at(*src, x + gx - 0, y + gy - 0));
    }
    let (r, g, b): (u8, u8, u8) = block[0];
    color_label(r, g, b)
}

/// The width of the caption: as measured, or eighty pixels where it could not be
/// measured.
pub fn caption_width(measured: Option<i64>) -> (r: i64)
    ensures
        r == (match measured {
            Some(v) => v,
            None => 81920i64,
        }),
{
    measured.unwrap_or(80 * UNIT)
}

/// Draws the magnifier.
#[verifier::rlimit(40)]
pub fn draw_magnifier<'a>(
    out: &mut Vec<PaintOp<'a>>,
    src: &Pixels,
    at: Point,
    local: Point,
    cfg: &MagnifierConfig,
    caption: &'a String,
    caption_w: i64,
)
    requires
        at.within(REACH as int),
        local.within(2 * ORIGIN_LIMIT),
        modest(*cfg),
        names_color(*caption, *src, at),
        0 <= caption_w <= REACH,
    ensures
        final(out)@ == old(out)@ + magnifier_ops(*src, at, local, *cfg, caption, caption_w as int),
{
    let ghost start = out@;
    let mx: i64 = local.x + cfg.offset_x;
    let my: i64 = local.y + cfg.offset_y;
    let r: i64 = cfg.radius;
    out.push(PaintOp::Save);
    out.push(PaintOp::Circle { x: mx, y: my, r });
    out.push(PaintOp::Clip);
    out.push(PaintOp::Source(Color(100, 110, 140, 1000)));
    out.push(PaintOp::Rectangle { x: mx - r, y: my - r, w: r * 2, h: r * 2 });
    out.push(PaintOp::Fill);
    assert(out@ =~= start + lens_head_ops(mx as int, my as int, r as int));

    let x0: i64 = mx - 4 * LENS_CELL;
    let y0: i64 = my - 4 * LENS_CELL;
    let cx: i32 = to_pixels(at.x);
    let cy: i32 = to_pixels(at.y);
    let pixels: Vec<(u8, u8, u8)> = read_pixel_block(src, cx, cy, LENS_GRID, LENS_HALF);
    let ghost head = out@;
    let mut k: usize = 0;
    assert(out@ =~= head + lens_cells_ops(*src, cx as int, cy as int, x0 as int, y0 as int, 0));
    while k < 64
        invariant
            k <= 64,
            pixels@.len() == 64,
            forall|gx: int, gy: int|
                0 <= gx < 8 && 0 <= gy < 8 ==> #[trigger] pixels@[gy * 8 + gx] == rgb_at(
                    *src,
                    cx + gx - LENS_HALF,
                    cy + gy - LENS_HALF,
                ),
            -4 * ORIGIN_LIMIT <= x0 <= 4 * ORIGIN_LIMIT,
            -4 * ORIGIN_LIMIT <= y0 <= 4 * ORIGIN_LIMIT,
            out@ == head + lens_cells_ops(
                *src,
                cx as int,
                cy as int,
                x0 as int,
                y0 as int,
                k as int,
            ),
        decreases 64 - k,
    {
        let gx: i64 = (k % 8) as i64;
        let gy: i64 = (k / 8) as i64;
        let (pr, pg, pb): (u8, u8, u8) = pixels[k];
        let ghost before = out@;
        assert(pixels@[gy * 8 + gx] == rgb_at(*src, cx + gx - LENS_HALF, cy + gy - LENS_HALF));
        out.push(PaintOp::SourceRgb { r: pr, g: pg, b: pb });
        out.push(
            PaintOp::Rectangle {
                x: x0 + gx * LENS_CELL,
                y: y0 + gy * LENS_CELL,
                w: LENS_CELL,
                h: LENS_CELL,
            },
        );
        out.push(PaintOp::Fill);
        proof {
            let cell = lens_cell_ops(*src, cx as int, cy as int, x0 as int, y0 as int, k as int);
            assert(out@ =~= before + cell);
            assert(out@ =~= head + lens_cells_ops(
                *src,
                cx as int,
                cy as int,
                x0 as int,
                y0 as int,
                k + 1,
            ));
        }
        k = k + 1;
    }
    let ghost body = out@;
    let tx: i64 = mx - caption_w / 2;
    let ty: i64 = my + r - 8 * UNIT;
    out.push(PaintOp::Source(Color(231, 510, 965, 950)));
    out.push(PaintOp::LineWidth(2 * UNIT));
    out.push(PaintOp::Rectangle { x: mx, y: my, w: 2 * LENS_CELL, h: 2 * LENS_CELL });
    out.push(PaintOp::Stroke);
    out.push(PaintOp::Restore);
    out.push(PaintOp::Save);
    out.push(PaintOp::FontSize(10 * UNIT));
    out.push(PaintOp::Source(Color(0, 0, 0, 600)));
    out.push(
        PaintOp::Rectangle {
            x: tx - 4 * UNIT,
            y: ty - 10 * UNIT,
            w: caption_w + 8 * UNIT,
            h: 14 * UNIT,
        },
    );
    out.push(PaintOp::Fill);
    out.push(PaintOp::Source(Color(850, 880, 920, 1000)));
    out.push(PaintOp::MoveTo(Point { x: tx, y: ty }));
    out.push(PaintOp::ShowText(caption));
    out.push(PaintOp::Restore);
    out.push(PaintOp::Save);
    out.push(PaintOp::Source(Color(231, 510, 965, 250)));
    out.push(PaintOp::LineWidth(6 * UNIT));
    out.push(PaintOp::Circle { x: mx, y: my, r });
    out.push(PaintOp::Stroke);
    out.push(PaintOp::Source(Color(231, 510, 965, 950)));
    out.push(PaintOp::LineWidth(3 * UNIT));
    out.push(PaintOp::Circle { x: mx, y: my, r });
    out.push(PaintOp::Stroke);
    out.push(PaintOp::Restore);
    assert(out@ =~= body + lens_tail_ops(mx as int, my as int, r as int, caption, caption_w as int));
    assert(out@ =~= start + magnifier_ops(*src, at, local, *cfg, caption, caption_w as int));
}

/// What there is to show.
#[derive(Debug, Clone, Copy)]
pub struct Scene<'a> {
    pub drag: Drag,
    pub commands: &'a [DrawCommand],
    pub current: Option<&'a DrawCommand>,
    pub cursor: Point,
    pub magnifier: MagnifierConfig,
}

impl<'a> Scene<'a> {
    pub open spec fn wf(self) -> bool {
        &&& self.drag.wf()
        &&& forall|i: int| 0 <= i < self.commands@.len() ==> (#[trigger] self.commands@[i]).measurable()
        &&& self.current matches Some(c) ==> c.measurable()
        &&& self.cursor.within(REACH as int)
        &&& modest(self.magnifier)
    }

    /// What the selector's state looks like.
    pub fn of(s: &'a Selector) -> (r: Scene<'a>)
        ensures
            r.wf(),
            r.drag == s@.drag,
            tools::command_views(r.commands@) == s@.history.done,
            r.current is None <==> s@.current is None,
            r.current matches Some(c) ==> Some(c@) == s@.current,
            r.cursor == s@.cursor,
            r.magnifier == s@.magnifier,
    {
        Scene {
            drag: s.drag(),
            commands: s.commands(),
            current: s.current(),
            cursor: s.cursor(),
            magnifier: s.magnifier(),
        }
    }
}

/// The texts that a scene may show, with the space they take.
#[derive(Debug, Clone, Copy)]
pub struct Labels<'a> {
    pub readout: &'a Readout,
    pub extents: ReadoutExtents,
    pub caption: &'a String,
    pub caption_w: i64,
}

impl<'a> Labels<'a> {
    pub open spec fn fits(self) -> bool {
        self.extents.fits() && 0 <= self.caption_w <= REACH
    }

    /// The texts are those of the scene: the size of its selection, and the colour
    /// under its cursor.
    pub open spec fn belong_to(self, scene: Scene<'a>, src: Pixels) -> bool {
        &&& self.readout.tells(scene.drag.selection)
        &&& names_color(*self.caption, src, scene.cursor)
    }
}

/// A lens of the given radius at the point can show in a window of this size.
pub open spec fn lens_shows(at: Point, w: i64, h: i64, radius: i64) -> bool {
    &&& -radius <= at.x <= w + radius
    &&& -radius <= at.y <= h + radius
}

/// The selection's size while it is dragged out, its annotations once it is
/// made, and its border.
pub open spec fn selection_ops<'a>(
    scene: Scene<'a>,
    labels: Labels<'a>,
    origin: Point,
    src: Pixels,
) -> Seq<PaintOp<'a>> {
    let sel = scene.drag.selection;
    let local = sel.seen_from(origin);
    let corner = Point { x: sel.x, y: sel.y };
    if sel.trivial() || scene.drag.state is Idle {
        seq![]
    } else if scene.drag.state is Selecting {
        readout_ops(local, labels.readout, labels.extents) + border_ops(local)
    } else {
        seq![
            PaintOp::Save,
            PaintOp::Rectangle { x: local.x, y: local.y, w: local.w, h: local.h },
            PaintOp::Clip,
            PaintOp::Translate(Point { x: local.x, y: local.y }),
        ] + render::stack_ops(scene.commands@, Some(src), corner) + match scene.current {
            Some(c) => render::command_ops(c, Some(src), corner),
            None => seq![],
        } + seq![PaintOp::Restore] + border_ops(local)
    }
}

/// The overlay of a window of this size whose corner is at `origin` in the
/// image: the veil, the selection, and before a selection is made the
/// magnifier, if it can show in this window.
pub open spec fn overlay_ops<'a>(
    scene: Scene<'a>,
    labels: Labels<'a>,
    w: i64,
    h: i64,
    origin: Point,
    src: Pixels,
) -> Seq<PaintOp<'a>> {
    let at = Point {
        x: (scene.cursor.x - origin.x) as i64,
        y: (scene.cursor.y - origin.y) as i64,
    };
    mask_ops(w, h, scene.drag.selection.seen_from(origin), scene.drag.state) + selection_ops(
        scene,
        labels,
        origin,
        src,
    ) + if !(scene.drag.state is Selected) && lens_shows(at, w, h, scene.magnifier.radius) {
        magnifier_ops(
            src,
            scene.cursor,
            at,
            scene.magnifier,
            labels.caption,
            labels.caption_w as int,
        )
    } else {
        seq![]
    }
}

/// Draws the selection, its annotations and its border.
fn draw_selection<'a>(
    out: &mut Vec<PaintOp<'a>>,
    scene: Scene<'a>,
    labels: Labels<'a>,
    origin: Point,
    src: &Pixels,
)
    requires
        scene.wf(),
        labels.fits(),
        labels.belong_to(scene, *src),
        origin.within(ORIGIN_LIMIT as int),
    ensures
        final(out)@ == old(out)@ + selection_ops(scene, labels, origin, *src),
{
    let ghost start = out@;
    let sel: SelectionRect = scene.drag.selection;
    let local: SelectionRect = sel.to_local(origin);
    if !sel.is_trivial() {
        match scene.drag.state {
            SelectorState::Idle => {},
            SelectorState::Selecting => {
                draw_size_readout(out, &local, labels.readout, labels.extents);
                draw_selection_border(out, &local);
            },
            SelectorState::Selected => {
                let corner: Point = Point { x: sel.x, y: sel.y };
                out.push(PaintOp::Save);
                out.push(PaintOp::Rectangle { x: local.x, y: local.y, w: local.w, h: local.h });
                out.push(PaintOp::Clip);
                out.push(PaintOp::Translate(Point { x: local.x, y: local.y }));
                let ghost head = out@;
                render_stack(out, scene.commands, Some(src), corner);
                let ghost stack = out@;
                assert(stack == head + render::stack_ops(scene.commands@, Some(*src), corner));
                if let Some(c) = scene.current {
                    render_command(out, c, Some(src), corner);
                }
                out.push(PaintOp::Restore);
                draw_selection_border(out, &local);
            },
        }
    }
    assert(out@ =~= start + selection_ops(scene, labels, origin, *src));
}

/// Draws the overlay of one window.
pub fn draw_overlay<'a>(
    out: &mut Vec<PaintOp<'a>>,
    scene: Scene<'a>,
    labels: Labels<'a>,
    w: i64,
    h: i64,
    origin: Point,
    src: &Pixels,
)
    requires
        scene.wf(),
        labels.fits(),
        labels.belong_to(scene, *src),
        origin.within(ORIGIN_LIMIT as int),
        0 <= w <= LIMIT,
        0 <= h <= LIMIT,
    ensures
        final(out)@ == old(out)@ + overlay_ops(scene, labels, w, h, origin, *src),
{
    let ghost start = out@;
    let local: SelectionRect = scene.drag.selection.to_local(origin);
    draw_mask(out, w, h, &local, scene.drag.state);
    draw_selection(out, scene, labels, origin, src);
    if scene.drag.state != SelectorState::Selected {
        let at: Point = Point { x: scene.cursor.x - origin.x, y: scene.cursor.y - origin.y };
        let radius: i64 = scene.magnifier.radius;
        if at.x >= -radius && at.y >= -radius && at.x <= w + radius && at.y <= h + radius {
            draw_magnifier(
                out,
                src,
                scene.cursor,
                at,
                &scene.magnifier,
                labels.caption,
                labels.caption_w,
            );
        }
    }
    assert(out@ =~= start + overlay_ops(scene, labels, w, h, origin, *src));
}

/// The selection has no pixel.
#[derive(Debug, Clone, Copy, PartialEq, Eq, Structural)]
pub struct EmptySelection;

/// The finished image: its size and what is drawn on it.
#[derive(Debug)]
pub struct Rendering<'a> {
    pub width: i32,
    pub height: i32,
    pub ops: Vec<PaintOp<'a>>,
}

/// The captured image shifted so that the selection's corner comes first, then
/// the annotations.
pub open spec fn rendering_ops<'a>(
    sel: SelectionRect,
    commands: Seq<DrawCommand>,
    src: Pixels,
) -> Seq<PaintOp<'a>> {
    seq![PaintOp::Image(Point { x: (-sel.x) as i64, y: (-sel.y) as i64 })] + render::stack_ops(
        commands,
        Some(src),
        Point { x: sel.x, y: sel.y },
    )
}

/// Crops the capture to the selection and replays the annotations on it. The
/// size is that of the selection without fractions of a pixel.
pub fn crop_and_render<'a>(
    src: &Pixels,
    sel: &SelectionRect,
    commands: &'a [DrawCommand],
) -> (r: Result<Rendering<'a>, EmptySelection>)
    requires
        -DRAW_LIMIT <= sel.x <= DRAW_LIMIT,
        -DRAW_LIMIT <= sel.y <= DRAW_LIMIT,
        -DRAW_LIMIT <= sel.w <= DRAW_LIMIT,
        -DRAW_LIMIT <= sel.h <= DRAW_LIMIT,
        forall|i: int| 0 <= i < commands@.len() ==> (#[trigger] commands@[i]).measurable(),
    ensures
        r is Err <==> sel.w < UNIT || sel.h < UNIT,
        r matches Ok(p) ==> {
            &&& p.width == units::whole(sel.w as int)
            &&& p.height == units::whole(sel.h as int)
            &&& p.ops@ == rendering_ops(*sel, commands@, *src)
            &&& 1024 * p.width <= sel.w < 1024 * p.width + 1024
            &&& 1024 * p.height <= sel.h < 1024 * p.height + 1024
            &&& p.ops@.len() >= 1
            &&& p.ops@[0] matches PaintOp::Image(c) && c.x == -sel.x && c.y == -sel.y
        },
{
    let width: i32 = to_pixels(sel.w);
    let height: i32 = to_pixels(sel.h);
    if width <= 0 || height <= 0 {
        return Err(EmptySelection);
    }
    let mut ops: Vec<PaintOp<'a>> = Vec::new();
    ops.push(PaintOp::Image(Point { x: -sel.x, y: -sel.y }));
    render_stack(&mut ops, commands, Some(src), Point { x: sel.x, y: sel.y });
    assert(ops@ =~= rendering_ops(*sel, commands@, *src));
    Ok(Rendering { width, height, ops })
}

/// The point lies in a rectangle that is part of the operation.
pub open spec fn in_rectangle(op: PaintOp, p: Point) -> bool {
    match op {
        PaintOp::Rectangle { x, y, w, h } => x <= p.x < x + w && y <= p.y < y + h,
        _ => false,
    }
}

/// How many of the display list's rectangles hold the point.
pub open spec fn cover_count(ops: Seq<PaintOp>, p: Point) -> nat
    decreases ops.len(),
{
    if ops.len() == 0 {
        0
    } else {
        cover_count(ops.drop_last(), p) + if in_rectangle(ops.last(), p) {
            1nat
        } else {
            0nat
        }
    }
}

/// Every point of the window is veiled unless it is selected: by the even-odd
/// rule, it lies in an odd number of the veil's rectangles exactly if it lies
/// outside a selection that is being made or was made.
pub proof fn law_veil_spares_selection(
    w: i64,
    h: i64,
    sel: SelectionRect,
    state: SelectorState,
    p: Point,
)
    requires
        sel.measurable(),
        0 <= p.x < w,
        0 <= p.y < h,
    ensures
        cover_count(mask_ops(w, h, sel, state), p) % 2 == 1 <==> {
            ||| state is Idle
            ||| sel.trivial()
            ||| !(sel.x <= p.x < sel.right() && sel.y <= p.y < sel.bottom())
        },
{
    reveal_with_fuel(cover_count, 8);
    let ops = mask_ops(w, h, sel, state);
    if state is Idle || sel.trivial() {
        assert(ops.len() == 3);
    } else if ops.len() == 7 {
        assert(ops.drop_last().last() == ops[5]);
        assert(ops.drop_last().drop_last().last() == ops[4]);
        assert(ops.drop_last().drop_last().drop_last().last() == ops[3]);
    } else {
        assert(ops.len() == 6);
    }
}

/// In a window that holds the selection's upper edge, the read-out starts on the
/// window, and it lies either above that edge or below it.
pub proof fn law_readout_stays_visible(sel: SelectionRect, h: int)
    requires
        sel.y >= 0,
        h >= 0,
    ensures
        readout_top(sel, h) >= 0,
        readout_top(sel, h) + h < sel.y || readout_top(sel, h) > sel.y,
{
}

/// Once a selection was made the magnifier is gone, and the selection's size
/// with it.
pub proof fn law_selected_shows_no_lens<'a>(
    scene: Scene<'a>,
    labels: Labels<'a>,
    w: i64,
    h: i64,
    origin: Point,
    src: Pixels,
)
    requires
        scene.drag.state is Selected,
    ensures
        overlay_ops(scene, labels, w, h, origin, src) == mask_ops(
            w,
            h,
            scene.drag.selection.seen_from(origin),
            scene.drag.state,
        ) + selection_ops(scene, labels, origin, src),
{
    assert(overlay_ops(scene, labels, w, h, origin, src) =~= mask_ops(
        w,
        h,
        scene.drag.selection.seen_from(origin),
        scene.drag.state,
    ) + selection_ops(scene, labels, origin, src));
}

/// What was drawn on the screen is what ends up in the image: both replay the
/// same display list of the committed annotations.
pub proof fn law_image_shows_what_the_screen_showed<'a>(
    scene: Scene<'a>,
    labels: Labels<'a>,
    origin: Point,
    src: Pixels,
)
    requires
        scene.drag.state is Selected,
        !scene.drag.selection.trivial(),
        scene.current is None,
    ensures
        ({
            let sel = scene.drag.selection;
            let n = render::stack_ops(
                scene.commands@,
                Some(src),
                Point { x: sel.x, y: sel.y },
            ).len() as int;
            selection_ops(scene, labels, origin, src).subrange(4, 4 + n) == rendering_ops(
                sel,
                scene.commands@,
                src,
            ).subrange(1, 1 + n)
        }),
{
    let sel = scene.drag.selection;
    let stack = render::stack_ops(scene.commands@, Some(src), Point { x: sel.x, y: sel.y });
    let n = stack.len() as int;
    let a = selection_ops(scene, labels, origin, src);
    let b = rendering_ops(sel, scene.commands@, src);
    assert(a.subrange(4, 4 + n) =~= stack);
    assert(b.subrange(1, 1 + n) =~= stack);
}

/// The finished image starts with the capture, shifted by exactly the selection's
/// corner: what the capture has at the corner plus any distance, the image has at
/// that distance from its own corner. After the capture come the annotations,
/// whose mosaics read the capture from that same corner on.
pub proof fn law_rendering_shows_the_selection<'a>(
    sel: SelectionRect,
    commands: Seq<DrawCommand>,
    src: Pixels,
)
    requires
        -DRAW_LIMIT <= sel.x <= DRAW_LIMIT,
        -DRAW_LIMIT <= sel.y <= DRAW_LIMIT,
    ensures
        ({
            let ops = rendering_ops(sel, commands, src);
            &&& ops.len() >= 1
            &&& ops[0] matches PaintOp::Image(c) && c.x == -sel.x && c.y == -sel.y && forall|
                i: int,
                j: int,
            |
                #![trigger c.x + i, c.y + j]
                c.x + (sel.x + i) == i && c.y + (sel.y + j) == j
            &&& ops.skip(1) == render::stack_ops(
                commands,
                Some(src),
                (Point { x: sel.x, y: sel.y }),
            )
        }),
{
    let ops = rendering_ops(sel, commands, src);
    assert(ops.skip(1) =~= render::stack_ops(
        commands,
        Some(src),
        Point { x: sel.x, y: sel.y },
    ));
}

/// Two selections of one capture show its pixels apart by as much as their corners
/// are apart.
pub proof fn law_moved_selection_moves_the_capture<'a>(
    one: SelectionRect,
    two: SelectionRect,
    commands: Seq<DrawCommand>,
    src: Pixels,
)
    requires
        -DRAW_LIMIT <= one.x <= DRAW_LIMIT,
        -DRAW_LIMIT <= one.y <= DRAW_LIMIT,
        -DRAW_LIMIT <= two.x <= DRAW_LIMIT,
        -DRAW_LIMIT <= two.y <= DRAW_LIMIT,
    ensures
        rendering_ops(one, commands, src)[0] matches PaintOp::Image(c) && (rendering_ops(two, commands, src)[0] matches PaintOp::Image(d) && c.x - d.x == two.x - one.x && c.y
            - d.y == two.y - one.y),
{
}

/// The colour is that of the capture's pixel: its bytes, of which the blue one
/// comes first. Beyond the capture it is black.
pub open spec fn has_color_of(color: (u8, u8, u8), src: Pixels, x: int, y: int) -> bool {
    let at = src.row_bytes() * y + 4 * x;
    if 0 <= x < src.spec_width() && 0 <= y < src.spec_height() {
        &&& color.0 == src.bytes()[at + 2]
        &&& color.1 == src.bytes()[at + 1]
        &&& color.2 == src.bytes()[at]
    } else {
        color.0 == 0 && color.1 == 0 && color.2 == 0
    }
}

/// A colour that is read from the capture is that of the pixel.
pub proof fn law_color_of_a_pixel(src: Pixels, x: int, y: int)
    ensures
        has_color_of(rgb_at(src, x, y), src, x, y),
{
    let s = src.row_bytes();
    assert(y * s == s * y) by (nonlinear_arith);
}

proof fn lemma_lens_cell<'a>(src: Pixels, cx: int, cy: int, x0: int, y0: int, n: int, k: int)
    requires
        0 <= k < n,
    ensures
        lens_cells_ops(src, cx, cy, x0, y0, n).len() == 3 * n,
        ({
            let ops = lens_cells_ops(src, cx, cy, x0, y0, n);
            let cell = lens_cell_ops(src, cx, cy, x0, y0, k);
            &&& ops[3 * k] == cell[0]
            &&& ops[3 * k + 1] == cell[1]
            &&& ops[3 * k + 2] == cell[2]
        }),
    decreases n,
{
    if n == 1 {
        assert(lens_cells_ops(src, cx, cy, x0, y0, 0).len() == 0);
    } else {
        lemma_lens_cell(src, cx, cy, x0, y0, n - 1, if k < n - 1 { k } else { 0 });
    }
}

/// The lens magnifies: its square in column `gx` and row `gy` has the colour of the
/// capture's pixel that lies `gx - 4` columns and `gy - 4` rows from the one under
/// the pointer. The squares are twelve pixels wide and stand side by side in the
/// same order, the one of the pointer's pixel with its corner in the lens's middle.
pub proof fn law_lens_magnifies<'a>(
    src: Pixels,
    at: Point,
    local: Point,
    cfg: MagnifierConfig,
    caption: &'a String,
    caption_w: int,
    cx: int,
    cy: int,
    gx: int,
    gy: int,
)
    requires
        local.within(2 * ORIGIN_LIMIT),
        modest(cfg),
        units::counts_pixels(cx, at.x as int),
        units::counts_pixels(cy, at.y as int),
        0 <= gx < 8,
        0 <= gy < 8,
    ensures
        ({
            let ops = magnifier_ops(src, at, local, cfg, caption, caption_w);
            let i = 6 + 3 * (8 * gy + gx);
            &&& ops.len() == 222
            &&& ops[i] matches PaintOp::SourceRgb { r, g, b } && has_color_of(
                (r, g, b),
                src,
                cx + gx - 4,
                cy + gy - 4,
            )
            &&& ops[i + 1] matches PaintOp::Rectangle { x, y, w, h } && {
                &&& x == local.x + cfg.offset_x + 12288 * (gx - 4)
                &&& y == local.y + cfg.offset_y + 12288 * (gy - 4)
                &&& w == 12288
                &&& h == 12288
            }
            &&& ops[i + 2] == PaintOp::Fill
        }),
{
    let mx = local.x + cfg.offset_x;
    let my = local.y + cfg.offset_y;
    let k = 8 * gy + gx;
    assert(k % 8 == gx && k / 8 == gy);
    units::law_whole(at.x as int);
    units::law_whole(at.y as int);
    assert(units::whole(at.x as int) == cx);
    assert(units::whole(at.y as int) == cy);
    law_color_of_a_pixel(src, cx + gx - 4, cy + gy - 4);
    let x0 = mx - 4 * LENS_CELL;
    let y0 = my - 4 * LENS_CELL;
    lemma_lens_cell(src, cx, cy, x0, y0, 64, k);
    let head = lens_head_ops(mx, my, cfg.radius as int);
    let cells = lens_cells_ops(src, cx, cy, x0, y0, 64);
    let tail = lens_tail_ops(mx, my, cfg.radius as int, caption, caption_w);
    let ops = magnifier_ops(src, at, local, cfg, caption, caption_w);
    assert(ops == head + cells + tail);
    assert(head.len() == 6 && tail.len() == 24);
    assert(ops[6 + 3 * k] == cells[3 * k]);
    assert(ops[6 + 3 * k + 1] == cells[3 * k + 1]);
    assert(ops[6 + 3 * k + 2] == cells[3 * k + 2]);
}

/// Neighbouring squares of the lens show neighbouring pixels, in the order of the
/// capture: one pixel further right, the lens shows what it showed one square
/// further right before.
pub proof fn law_lens_follows_the_pointer<'a>(
    src: Pixels,
    at: Point,
    right: Point,
    below: Point,
    local: Point,
    cfg: MagnifierConfig,
    caption: &'a String,
    caption_w: int,
    gx: int,
    gy: int,
)
    requires
        local.within(2 * ORIGIN_LIMIT),
        modest(cfg),
        at.x >= 0,
        at.y >= 0,
        right.x == at.x + 1024,
        right.y == at.y,
        below.x == at.x,
        below.y == at.y + 1024,
        0 <= gx < 7,
        0 <= gy < 7,
    ensures
        ({
            let before = magnifier_ops(src, at, local, cfg, caption, caption_w);
            let moved = magnifier_ops(src, right, local, cfg, caption, caption_w);
            let lowered = magnifier_ops(src, below, local, cfg, caption, caption_w);
            let i = 6 + 3 * (8 * gy + gx);
            &&& moved[i] == before[i + 3]
            &&& lowered[i] == before[i + 24]
        }),
{
    let cx = at.x as int / 1024;
    let cy = at.y as int / 1024;
    law_lens_magnifies(src, at, local, cfg, caption, caption_w, cx, cy, gx + 1, gy);
    law_lens_magnifies(src, at, local, cfg, caption, caption_w, cx, cy, gx, gy + 1);
    law_lens_magnifies(src, right, local, cfg, caption, caption_w, cx + 1, cy, gx, gy);
    law_lens_magnifies(src, below, local, cfg, caption, caption_w, cx, cy + 1, gx, gy);
}

/// The lens is a disc of the wanted radius around the wanted distance from the
/// pointer; everything in it is drawn inside that disc, on a dark ground.
pub proof fn law_lens_is_a_disc<'a>(
    src: Pixels,
    at: Point,
    local: Point,
    cfg: MagnifierConfig,
    caption: &'a String,
    caption_w: int,
)
    requires
        local.within(2 * ORIGIN_LIMIT),
        modest(cfg),
    ensures
        ({
            let ops = magnifier_ops(src, at, local, cfg, caption, caption_w);
            &&& ops[0] == PaintOp::Save
            &&& ops[1] matches PaintOp::Circle { x, y, r } && x == local.x + cfg.offset_x && y
                == local.y + cfg.offset_y && r == cfg.radius
            &&& ops[2] == PaintOp::Clip
            &&& ops[3] == PaintOp::Source(Color(100, 110, 140, 1000))
            &&& ops[4] matches PaintOp::Rectangle { x, y, w, h } && {
                &&& x + cfg.radius == local.x + cfg.offset_x
                &&& y + cfg.radius == local.y + cfg.offset_y
                &&& w == 2 * cfg.radius
                &&& h == 2 * cfg.radius
            }
            &&& ops[5] == PaintOp::Fill
        }),
{
}

/// After the squares come the mark on the pixel under the pointer, the caption in
/// the middle of the lens's lower part, and the rim. The mark is cut to the disc.
pub proof fn law_lens_is_marked_and_captioned<'a>(
    src: Pixels,
    at: Point,
    local: Point,
    cfg: MagnifierConfig,
    caption: &'a String,
    caption_w: int,
)
    requires
        local.within(2 * ORIGIN_LIMIT),
        modest(cfg),
        0 <= caption_w <= REACH,
    ensures
        ({
            let ops = magnifier_ops(src, at, local, cfg, caption, caption_w);
            let mx = local.x + cfg.offset_x;
            let my = local.y + cfg.offset_y;
            &&& ops[198] == PaintOp::Source(Color(231, 510, 965, 950))
            &&& ops[199] == PaintOp::LineWidth(2048)
            &&& ops[200] matches PaintOp::Rectangle { x, y, w, h } && x == mx && y == my && w
                == 24576 && h == 24576
            &&& ops[201] == PaintOp::Stroke
            &&& ops[202] == PaintOp::Restore
            &&& ops[203] == PaintOp::Save
            &&& ops[204] == PaintOp::FontSize(10240)
            &&& ops[205] == PaintOp::Source(Color(0, 0, 0, 600))
            &&& ops[209] matches PaintOp::MoveTo(p) && {
                &&& 2 * (mx - p.x) <= caption_w < 2 * (mx - p.x) + 2
                &&& p.y == my + cfg.radius - 8192
                &&& ops[206] matches PaintOp::Rectangle { x, y, w, h } && x == p.x - 4096 && y
                    == p.y - 10240 && w == caption_w + 8192 && h == 14336
            }
            &&& ops[207] == PaintOp::Fill
            &&& ops[208] == PaintOp::Source(Color(850, 880, 920, 1000))
            &&& ops[210] == PaintOp::ShowText(caption)
            &&& ops[211] == PaintOp::Restore
            &&& ops[212] == PaintOp::Save
            &&& ops[213] == PaintOp::Source(Color(231, 510, 965, 250))
            &&& ops[214] == PaintOp::LineWidth(6144)
            &&& ops[215] matches PaintOp::Circle { x, y, r } && x == mx && y == my && r
                == cfg.radius
            &&& ops[216] == PaintOp::Stroke
            &&& ops[217] == PaintOp::Source(Color(231, 510, 965, 950))
            &&& ops[218] == PaintOp::LineWidth(3072)
            &&& ops[219] == ops[215]
            &&& ops[220] == PaintOp::Stroke
            &&& ops[221] == PaintOp::Restore
        }),
{
    let mx = local.x + cfg.offset_x;
    let my = local.y + cfg.offset_y;
    let cx = units::whole(at.x as int);
    let cy = units::whole(at.y as int);
    let x0 = mx - 4 * LENS_CELL;
    let y0 = my - 4 * LENS_CELL;
    lemma_lens_cell(src, cx, cy, x0, y0, 64, 0);
    let head = lens_head_ops(mx, my, cfg.radius as int);
    let cells = lens_cells_ops(src, cx, cy, x0, y0, 64);
    let tail = lens_tail_ops(mx, my, cfg.radius as int, caption, caption_w);
    let ops = magnifier_ops(src, at, local, cfg, caption, caption_w);
    assert(ops == head + cells + tail);
    assert(head.len() == 6 && cells.len() == 192 && tail.len() == 24);
    assert forall|i: int| 0 <= i < 24 implies #[trigger] ops[198 + i] == tail[i] by {}
    assert(ops[198] == tail[0] && ops[199] == tail[1] && ops[200] == tail[2]
        && ops[201] == tail[3] && ops[202] == tail[4] && ops[203] == tail[5]
        && ops[204] == tail[6] && ops[205] == tail[7] && ops[206] == tail[8]
        && ops[207] == tail[9] && ops[208] == tail[10] && ops[209] == tail[11]);
    assert(ops[210] == tail[12] && ops[211] == tail[13] && ops[212] == tail[14]
        && ops[213] == tail[15] && ops[214] == tail[16] && ops[215] == tail[17]
        && ops[216] == tail[18] && ops[217] == tail[19] && ops[218] == tail[20]
        && ops[219] == tail[21] && ops[220] == tail[22] && ops[221] == tail[23]);
}

/// The lens's caption is the colour of the pixel under the pointer.
pub proof fn law_caption_names_the_pixel(
    caption: String,
    src: Pixels,
    at: Point,
    cx: int,
    cy: int,
    color: (u8, u8, u8),
)
    requires
        units::counts_pixels(cx, at.x as int),
        units::counts_pixels(cy, at.y as int),
        has_color_of(color, src, cx, cy),
    ensures
        names_color(caption, src, at) <==> caption@ == text::color_caption(
            color.0,
            color.1,
            color.2,
        ),
{
    units::law_whole(at.x as int);
    units::law_whole(at.y as int);
    assert(units::whole(at.x as int) == cx);
    assert(units::whole(at.y as int) == cy);
    law_color_of_a_pixel(src, cx, cy);
}

/// The veil is drawn first of all over the whole window, and with it, where the
/// selection shows, the part of the selection that lies in the window.
pub proof fn law_veil_is_cut_out<'a>(w: i64, h: i64, sel: SelectionRect, state: SelectorState)
    requires
        sel.measurable(),
        0 <= w <= LIMIT,
        0 <= h <= LIMIT,
    ensures
        ({
            let ops = mask_ops(w, h, sel, state);
            let small = sel.w < 3072 || sel.h < 3072;
            let beside = sel.x >= w || sel.y >= h || sel.x + sel.w <= 0 || sel.y + sel.h <= 0;
            if state == SelectorState::Idle || small {
                &&& ops.len() == 3
                &&& ops[0] == PaintOp::Source(Color(30, 40, 55, 650))
                &&& ops[1] == (PaintOp::Rectangle { x: 0, y: 0, w, h })
                &&& ops[2] == PaintOp::Fill
            } else {
                &&& ops.len() == if beside || w == 0 || h == 0 { 6int } else { 7 }
                &&& ops[0] == PaintOp::Save
                &&& ops[1] == PaintOp::EvenOddFill
                &&& ops[2] == PaintOp::Source(Color(30, 40, 55, 650))
                &&& ops[3] == (PaintOp::Rectangle { x: 0, y: 0, w, h })
                &&& ops[ops.len() - 2] == PaintOp::Fill
                &&& ops[ops.len() - 1] == PaintOp::Restore
                &&& ops.len() == 7 ==> (ops[4] matches PaintOp::Rectangle { x, y, w: cw, h: ch }
                    && {
                    &&& x == if sel.x < 0 { 0 } else { sel.x as int }
                    &&& y == if sel.y < 0 { 0 } else { sel.y as int }
                    &&& x + cw == if sel.x + sel.w > w { w as int } else { sel.x + sel.w }
                    &&& y + ch == if sel.y + sel.h > h { h as int } else { sel.y + sel.h }
                })
            }
        }),
{
}

/// A grip: a white square of twelve pixels, framed in blue, with the point in its
/// middle.
pub open spec fn is_grip<'a>(ops: Seq<PaintOp<'a>>, i: int, x: int, y: int) -> bool {
    &&& ops[i] == PaintOp::Source(Color(1000, 1000, 1000, 1000))
    &&& ops[i + 1] matches PaintOp::Rectangle { x: l, y: t, w, h } && l == x - 6144 && t == y - 6144
        && w == 12288 && h == 12288
    &&& ops[i + 2] == PaintOp::Fill
    &&& ops[i + 3] == PaintOp::Source(Color(231, 510, 965, 950))
    &&& ops[i + 4] == PaintOp::LineWidth(2048)
    &&& ops[i + 5] == ops[i + 1]
    &&& ops[i + 6] == PaintOp::Stroke
}

/// A selection that is not trivial has a broad faint and a narrow strong outline
/// along its own edges.
pub proof fn law_outline_is_the_selection<'a>(sel: SelectionRect)
    requires
        sel.measurable(),
    ensures
        ({
            let ops = border_ops(sel);
            let edges = PaintOp::Rectangle { x: sel.x, y: sel.y, w: sel.w, h: sel.h };
            &&& sel.w < 3072 || sel.h < 3072 ==> ops.len() == 0
            &&& sel.w >= 3072 && sel.h >= 3072 ==> {
                &&& ops.len() == 66
                &&& ops[0] == PaintOp::Save
                &&& ops[1] == PaintOp::Source(Color(231, 510, 965, 200))
                &&& ops[2] == PaintOp::LineWidth(6144)
                &&& ops[3] == edges
                &&& ops[4] == PaintOp::Stroke
                &&& ops[5] == PaintOp::Source(Color(231, 510, 965, 950))
                &&& ops[6] == PaintOp::LineWidth(2048)
                &&& ops[7] == edges
                &&& ops[8] == PaintOp::Stroke
                &&& ops[65] == PaintOp::Restore
            }
        }),
{
    if !sel.trivial() {
        let ops = border_ops(sel);
        let o = outline_ops(sel);
        assert(o.len() == 9);
        assert(ops.subrange(0, 9) =~= o);
        assert(ops[0] == o[0] && ops[1] == o[1] && ops[2] == o[2] && ops[3] == o[3] && ops[4]
            == o[4] && ops[5] == o[5] && ops[6] == o[6] && ops[7] == o[7] && ops[8] == o[8]);
    }
}

/// There are eight grips, clockwise from the upper left corner: one on each corner
/// and one in the middle of each edge.
pub proof fn law_grips_are_on_the_edges<'a>(sel: SelectionRect, cx: int, cy: int)
    requires
        sel.measurable(),
        sel.w >= 3072,
        sel.h >= 3072,
        sel.w - 1 <= 2 * (cx - sel.x) <= sel.w,
        sel.h - 1 <= 2 * (cy - sel.y) <= sel.h,
    ensures
        ({
            let ops = border_ops(sel);
            let r = sel.x + sel.w;
            let b = sel.y + sel.h;
            &&& is_grip(ops, 9, sel.x as int, sel.y as int)
            &&& is_grip(ops, 16, cx, sel.y as int)
            &&& is_grip(ops, 23, r, sel.y as int)
            &&& is_grip(ops, 30, r, cy)
            &&& is_grip(ops, 37, r, b)
            &&& is_grip(ops, 44, cx, b)
            &&& is_grip(ops, 51, sel.x as int, b)
            &&& is_grip(ops, 58, sel.x as int, cy)
        }),
{
    let ops = border_ops(sel);
    let l = sel.x as int;
    let t = sel.y as int;
    let r = sel.x + sel.w;
    let b = sel.y + sel.h;
    assert(sel.x + sel.w / 2 == cx);
    assert(sel.y + sel.h / 2 == cy);
    assert(!sel.trivial());
    lemma_grip(ops, 9, l, t);
    lemma_grip(ops, 16, cx, t);
    lemma_grip(ops, 23, r, t);
    lemma_grip(ops, 30, r, cy);
    lemma_grip(ops, 37, r, b);
    lemma_grip(ops, 44, cx, b);
    lemma_grip(ops, 51, l, b);
    lemma_grip(ops, 58, l, cy);
}

proof fn lemma_grip<'a>(ops: Seq<PaintOp<'a>>, i: int, x: int, y: int)
    requires
        0 <= i,
        i + 7 <= ops.len(),
        ops.subrange(i, i + 7) =~= grip_ops(x, y),
        -3 * LIMIT <= x <= 3 * LIMIT,
        -3 * LIMIT <= y <= 3 * LIMIT,
    ensures
        is_grip(ops, i, x, y),
{
    let g = ops.subrange(i, i + 7);
    assert(g[0] == ops[i] && g[1] == ops[i + 1] && g[2] == ops[i + 2] && g[3] == ops[i + 3] && g[4]
        == ops[i + 4] && g[5] == ops[i + 5] && g[6] == ops[i + 6]);
}

/// The size read-out is a dark panel at the selection's left edge, six pixels above
/// the selection or, where it would leave the screen there, six pixels below its
/// upper edge. The three texts stand in it one after the other, on one line, the
/// panel reaching ten pixels beyond them to both sides and five above and below.
pub proof fn law_readout_layout<'a>(sel: SelectionRect, readout: &'a Readout, ext: ReadoutExtents)
    requires
        sel.measurable(),
        ext.fits(),
    ensures
        ({
            let ops = readout_ops(sel, readout, ext);
            &&& ops.len() == 19
            &&& ops[0] == PaintOp::FontSize(12288)
            &&& ops[1] == PaintOp::Save
            &&& ops[2] == PaintOp::Source(Color(0, 0, 0, 750))
            &&& ops[3] matches PaintOp::Rectangle { x, y, w, h } && {
                &&& x == sel.x
                &&& sel.y - h - 6144 >= 0 ==> y + h + 6144 == sel.y
                &&& sel.y - h - 6144 < 0 ==> y == sel.y + 6144
                &&& w == ext.width + ext.separator + ext.height + 20480
                &&& h == ext.line + 10240
                &&& ops[10] matches PaintOp::MoveTo(p) && p.x == x + 10240 && p.y == y + h - 5120
                &&& ops[13] matches PaintOp::MoveTo(p) && p.x == x + 10240 + ext.width && p.y == y
                    + h - 5120
                &&& ops[16] matches PaintOp::MoveTo(p) && p.x == x + w - 10240 - ext.height && p.y
                    == y + h - 5120
            }
            &&& ops[4] == PaintOp::Fill
            &&& ops[5] == PaintOp::Source(Color(1000, 1000, 1000, 100))
            &&& ops[6] == PaintOp::LineWidth(1024)
            &&& ops[7] == ops[3]
            &&& ops[8] == PaintOp::Stroke
            &&& ops[9] == PaintOp::Source(Color(231, 510, 965, 1000))
            &&& ops[11] == PaintOp::ShowText(&readout.width)
            &&& ops[12] == PaintOp::Source(Color(1000, 1000, 1000, 1000))
            &&& ops[14] == PaintOp::ShowText(&readout.separator)
            &&& ops[15] == PaintOp::Source(Color(231, 510, 965, 1000))
            &&& ops[17] == PaintOp::ShowText(&readout.height)
            &&& ops[18] == PaintOp::Restore
        }),
{
}

/// The read-out tells the width before the height, each as a decimal number of
/// pixels.
pub proof fn law_readout_tells_the_size(readout: Readout, sel: SelectionRect)
    requires
        readout.tells(sel),
        sel.upright(),
    ensures
        sel.w % 1024 == 0 ==> readout.width@ == text::decimal((sel.w / 1024) as nat),
        sel.h % 1024 == 0 ==> readout.height@ == text::decimal((sel.h / 1024) as nat),
        readout.separator@ == " \u{d7} "@,
{
    units::law_even_pixels(sel.w as int);
    units::law_even_pixels(sel.h as int);
}

/// The lens shows in a window exactly if the pointer lies in the window or no
/// further from it than the radius, in each direction.
pub proof fn law_lens_near_the_window(at: Point, w: i64, h: i64, radius: i64)
    ensures
        lens_shows(at, w, h, radius) <==> {
            &&& at.x + radius >= 0
            &&& at.x - radius <= w
            &&& at.y + radius >= 0
            &&& at.y - radius <= h
        },
{
}

/// While a selection is dragged out, its size and its border show at its place in
/// the window; before, nothing of it shows.
pub proof fn law_selecting_shows_size_and_border<'a>(
    scene: Scene<'a>,
    labels: Labels<'a>,
    origin: Point,
    src: Pixels,
    local: SelectionRect,
)
    requires
        scene.wf(),
        origin.within(ORIGIN_LIMIT as int),
        local.x == scene.drag.selection.x - origin.x,
        local.y == scene.drag.selection.y - origin.y,
        local.w == scene.drag.selection.w,
        local.h == scene.drag.selection.h,
    ensures
        ({
            let ops = selection_ops(scene, labels, origin, src);
            let shows = local.w >= 3072 && local.h >= 3072;
            &&& scene.drag.state == SelectorState::Idle ==> ops.len() == 0
            &&& !shows ==> ops.len() == 0
            &&& scene.drag.state == SelectorState::Selecting && shows ==> {
                &&& ops.len() == 85
                &&& ops.subrange(0, 19) == readout_ops(local, labels.readout, labels.extents)
                &&& ops.subrange(19, 85) == border_ops(local)
            }
        }),
{
    let there = scene.drag.selection.seen_from(origin);
    assert(there == local);
    if scene.drag.state is Selecting && !local.trivial() {
        let ops = selection_ops(scene, labels, origin, src);
        law_outline_is_the_selection(local);
        assert(ops.subrange(0, 19) =~= readout_ops(local, labels.readout, labels.extents));
        assert(ops.subrange(19, 85) =~= border_ops(local));
    }
}

/// Once a selection was made, its annotations show inside it only, in coordinates
/// that start at its corner: first those that are finished, then the one being
/// drawn. The border comes last, over them.
pub proof fn law_selected_shows_annotations<'a>(
    scene: Scene<'a>,
    labels: Labels<'a>,
    origin: Point,
    src: Pixels,
    local: SelectionRect,
)
    requires
        scene.wf(),
        origin.within(ORIGIN_LIMIT as int),
        local.x == scene.drag.selection.x - origin.x,
        local.y == scene.drag.selection.y - origin.y,
        local.w == scene.drag.selection.w,
        local.h == scene.drag.selection.h,
        local.w >= 3072,
        local.h >= 3072,
        scene.drag.state == SelectorState::Selected,
    ensures
        ({
            let ops = selection_ops(scene, labels, origin, src);
            let corner = Point { x: scene.drag.selection.x, y: scene.drag.selection.y };
            let done = render::stack_ops(scene.commands@, Some(src), corner);
            let n = done.len() as int;
            let m = ops.len() as int;
            &&& m >= n + 71
            &&& ops[0] == PaintOp::Save
            &&& ops[1] == (PaintOp::Rectangle {
                x: local.x,
                y: local.y,
                w: local.w,
                h: local.h,
            })
            &&& ops[2] == PaintOp::Clip
            &&& ops[3] == PaintOp::Translate(Point { x: local.x, y: local.y })
            &&& ops.subrange(4, 4 + n) == done
            &&& scene.current is None ==> m == n + 71
            &&& scene.current matches Some(c) ==> ops.subrange(4 + n, m - 67)
                == render::command_ops(c, Some(src), corner)
            &&& ops[m - 67] == PaintOp::Restore
            &&& ops.subrange(m - 66, m) == border_ops(local)
        }),
{
    let there = scene.drag.selection.seen_from(origin);
    assert(there == local);
    assert(!scene.drag.selection.trivial());
    law_outline_is_the_selection(local);
    let ops = selection_ops(scene, labels, origin, src);
    let corner = Point { x: scene.drag.selection.x, y: scene.drag.selection.y };
    let done = render::stack_ops(scene.commands@, Some(src), corner);
    let n = done.len() as int;
    let m = ops.len() as int;
    assert(ops.subrange(4, 4 + n) =~= done);
    assert(ops.subrange(m - 66, m) =~= border_ops(local));
    if let Some(c) = scene.current {
        assert(ops.subrange(4 + n, m - 67) =~= render::command_ops(c, Some(src), corner));
    }
}

/// The overlay starts with the veil, then shows the selection. Before a selection
/// was made, the lens comes last, at the pointer's place in the window, in each
/// window that it reaches.
pub proof fn law_overlay_layers<'a>(
    scene: Scene<'a>,
    labels: Labels<'a>,
    w: i64,
    h: i64,
    origin: Point,
    src: Pixels,
    local: SelectionRect,
    at: Point,
)
    requires
        scene.wf(),
        origin.within(ORIGIN_LIMIT as int),
        local.x == scene.drag.selection.x - origin.x,
        local.y == scene.drag.selection.y - origin.y,
        local.w == scene.drag.selection.w,
        local.h == scene.drag.selection.h,
        at.x == scene.cursor.x - origin.x,
        at.y == scene.cursor.y - origin.y,
    ensures
        ({
            let ops = overlay_ops(scene, labels, w, h, origin, src);
            let veil = mask_ops(w, h, local, scene.drag.state);
            let shown = selection_ops(scene, labels, origin, src);
            let n = (veil.len() + shown.len()) as int;
            let r = scene.magnifier.radius;
            let near = at.x + r >= 0 && at.x - r <= w && at.y + r >= 0 && at.y - r <= h;
            &&& n <= ops.len()
            &&& ops.subrange(0, veil.len() as int) == veil
            &&& ops.subrange(veil.len() as int, n) == shown
            &&& ops.skip(n) == if scene.drag.state != SelectorState::Selected && near {
                magnifier_ops(
                    src,
                    scene.cursor,
                    at,
                    scene.magnifier,
                    labels.caption,
                    labels.caption_w as int,
                )
            } else {
                Seq::empty()
            }
        }),
{
    let ops = overlay_ops(scene, labels, w, h, origin, src);
    assert(scene.drag.selection.seen_from(origin) == local);
    let veil = mask_ops(w, h, local, scene.drag.state);
    let shown = selection_ops(scene, labels, origin, src);
    let n = (veil.len() + shown.len()) as int;
    assert(ops.subrange(0, veil.len() as int) =~= veil);
    assert(ops.subrange(veil.len() as int, n) =~= shown);
    if !(scene.drag.state is Selected) && lens_shows(at, w, h, scene.magnifier.radius) {
        assert(ops.skip(n) =~= magnifier_ops(
            src,
            scene.cursor,
            at,
            scene.magnifier,
            labels.caption,
            labels.caption_w as int,
        ));
    } else {
        assert(ops.skip(n) =~= Seq::empty());
    }
}

} // verus!
