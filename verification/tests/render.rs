use glint_screenshot::desktop::{
    desktop_bounds, is_spannable, position_toolbar, Desktop, DesktopError, MonitorCrop,
    MonitorGeom, Placement,
};
use glint_screenshot::drag::SelectorState;
use glint_screenshot::image::{Argb32Image, Pixels};
use glint_screenshot::overlay::{
    caption_width, crop_and_render, draw_magnifier, draw_mask, draw_overlay, draw_selection_border,
    draw_size_readout, magnifier_caption, read_pixel_block, size_readout, EmptySelection, Labels,
    ReadoutExtents, Scene,
};
use glint_screenshot::tools::{is_command_trivial, text_command};
use glint_screenshot::units::{Point, UNIT};
use glint_screenshot::{
    render_command, render_stack, Color, DrawCommand, MagnifierConfig, PaintOp, SelectionRect,
    Selector, StrokeStyle,
};

fn px(x: i64, y: i64) -> Point {
    Point { x: x * UNIT, y: y * UNIT }
}

fn rect(x: i64, y: i64, w: i64, h: i64) -> SelectionRect {
    SelectionRect { x: x * UNIT, y: y * UNIT, w: w * UNIT, h: h * UNIT }
}

fn box_op<'a>(x: i64, y: i64, w: i64, h: i64) -> PaintOp<'a> {
    PaintOp::Rectangle { x: x * UNIT, y: y * UNIT, w: w * UNIT, h: h * UNIT }
}

fn style() -> StrokeStyle {
    StrokeStyle { color: Color::green(), width: 6 * UNIT }
}

fn origin() -> Point {
    Point { x: 0, y: 0 }
}

fn ops_of(cmd: &DrawCommand) -> Vec<PaintOp<'_>> {
    let mut out = Vec::new();
    render_command(&mut out, cmd, None, origin());
    out
}

/// Four pixels wide and two high; the blue channel counts from 0, green is ten
/// more, red twenty more.
fn image() -> Argb32Image {
    let mut data = Vec::new();
    for i in 0..8u8 {
        data.extend_from_slice(&[i, i + 10, i + 20, 255]);
    }
    Argb32Image::from_bytes(4, 2, data)
}

#[test]
fn rectangles_and_ellipses() {
    let c = DrawCommand::Rect { x: 1, y: 2, w: 3, h: 4, style: style() };
    assert_eq!(
        ops_of(&c),
        vec![
            PaintOp::Save,
            PaintOp::LineWidth(6 * UNIT),
            PaintOp::Source(Color::green()),
            PaintOp::Rectangle { x: 1, y: 2, w: 3, h: 4 },
            PaintOp::Stroke,
            PaintOp::Restore,
        ]
    );
}

#[test]
fn ellipses_are_four_curves() {
    let c = DrawCommand::Ellipse {
        x: 10 * UNIT,
        y: 20 * UNIT,
        w: 200 * UNIT,
        h: 100 * UNIT,
        style: style(),
    };
    let ops = ops_of(&c);
    assert_eq!(ops.len(), 12);
    assert_eq!(ops[3], PaintOp::NewPath);
    assert_eq!(ops[4], PaintOp::MoveTo(px(210, 70)));
    // 0.5522847498 of 100 and of 50 pixels.
    let (kx, ky) = (56554, 28277);
    assert_eq!(
        ops[5],
        PaintOp::CurveTo {
            c1: Point { x: 210 * UNIT, y: 70 * UNIT + ky },
            c2: Point { x: 110 * UNIT + kx, y: 120 * UNIT },
            to: px(110, 120),
        }
    );
    assert_eq!(
        ops[7],
        PaintOp::CurveTo {
            c1: Point { x: 10 * UNIT, y: 70 * UNIT - ky },
            c2: Point { x: 110 * UNIT - kx, y: 20 * UNIT },
            to: px(110, 20),
        }
    );
    assert_eq!(ops[9], PaintOp::ClosePath);
    assert_eq!(ops[10], PaintOp::Stroke);
}

#[test]
fn lines_and_arrows() {
    let c = DrawCommand::Line { x1: 1, y1: 2, x2: 3, y2: 4, style: style() };
    let line = ops_of(&c);
    assert_eq!(line[2], PaintOp::RoundCap);
    assert_eq!(line[4], PaintOp::MoveTo(Point { x: 1, y: 2 }));
    assert_eq!(line[5], PaintOp::LineTo(Point { x: 3, y: 4 }));
    assert_eq!(line.len(), 8);
    let c = DrawCommand::Arrow { x1: 1, y1: 2, x2: 3, y2: 4, style: style() };
    let arrow = ops_of(&c);
    assert_eq!(arrow.len(), 10);
    assert_eq!(
        arrow[7],
        PaintOp::ArrowHead {
            from: Point { x: 1, y: 2 },
            to: Point { x: 3, y: 4 },
            length: 24 * UNIT,
            degrees: 25,
        }
    );
}

#[test]
fn ellipses_reach_all_edges() {
    let c = DrawCommand::Ellipse { x: 0, y: 0, w: 5, h: 7, style: style() };
    let ops = ops_of(&c);
    assert_eq!(ops[4], PaintOp::MoveTo(Point { x: 5, y: 3 }));
    assert!(matches!(ops[5], PaintOp::CurveTo { to, .. } if to == Point { x: 2, y: 7 }));
    assert!(matches!(ops[6], PaintOp::CurveTo { to, .. } if to == Point { x: 0, y: 3 }));
    assert!(matches!(ops[7], PaintOp::CurveTo { to, .. } if to == Point { x: 2, y: 0 }));
}

#[test]
fn thin_arrows_have_heads_of_twelve_pixels() {
    let thin = StrokeStyle { color: Color::red(), width: 2 * UNIT };
    let c = DrawCommand::Arrow { x1: 1, y1: 2, x2: 3, y2: 4, style: thin };
    assert!(matches!(ops_of(&c)[7], PaintOp::ArrowHead { length, .. } if length == 12 * UNIT));
}

#[test]
fn brush_lines() {
    let c = DrawCommand::Brush { points: vec![px(1, 1), px(2, 2), px(3, 1)], style: style() };
    let ops = ops_of(&c);
    assert_eq!(ops[3], PaintOp::RoundJoin);
    assert_eq!(ops[5], PaintOp::MoveTo(px(1, 1)));
    assert_eq!(ops[6], PaintOp::LineTo(px(2, 2)));
    assert_eq!(ops[7], PaintOp::LineTo(px(3, 1)));
    // The settings are restored even where nothing is drawn.
    let c = DrawCommand::Brush { points: vec![px(1, 1)], style: style() };
    assert_eq!(ops_of(&c), vec![PaintOp::Save, PaintOp::Restore]);
}

#[test]
fn texts_hang_below_their_point() {
    let c = DrawCommand::Text {
        x: 5 * UNIT,
        y: 7 * UNIT,
        text: "hi".to_string(),
        size: 20 * UNIT,
        color: Color::blue(),
    };
    let text = "hi".to_string();
    assert_eq!(
        ops_of(&c),
        vec![
            PaintOp::Save,
            PaintOp::FontSize(20 * UNIT),
            PaintOp::Source(Color::blue()),
            PaintOp::MoveTo(px(5, 27)),
            PaintOp::ShowText(&text),
            PaintOp::Restore,
        ]
    );
}

#[test]
fn styles_of_commands() {
    let c = DrawCommand::Rect { x: 1, y: 2, w: 3, h: 4, style: style() };
    assert_eq!(c.style(), style());
    let c = DrawCommand::Mosaic { x: 1, y: 2, w: 3, h: 4, block: 12 };
    assert_eq!(c.style(), StrokeStyle { color: Color::red(), width: 4 * UNIT });
}

#[test]
fn trivial_commands() {
    let long = |w: i64, h: i64| DrawCommand::Mosaic {
        x: 0,
        y: 0,
        w: w * UNIT,
        h: h * UNIT,
        block: 12,
    };
    assert!(is_command_trivial(&long(2, 10)));
    assert!(!is_command_trivial(&long(3, 3)));
    let arrow = |x: i64, y: i64| DrawCommand::Arrow {
        x1: 0,
        y1: 0,
        x2: x * UNIT,
        y2: y * UNIT,
        style: style(),
    };
    assert!(is_command_trivial(&arrow(-2, 2)));
    assert!(!is_command_trivial(&arrow(-3, 0)));
    assert!(text_command(px(0, 0), style(), String::new()).is_none());
}

#[test]
fn mosaics_average_what_they_cover() {
    let image = image();
    let pixels = image.pixels();
    let c = DrawCommand::Mosaic { x: 0, y: 0, w: 4 * UNIT, h: 2 * UNIT, block: 2 };
    let mut out = Vec::new();
    render_command(&mut out, &c, Some(&pixels), origin());
    assert_eq!(
        out,
        vec![
            PaintOp::Save,
            PaintOp::SourceMean { r: 90, g: 50, b: 10, n: 4 },
            box_op(0, 0, 2, 2),
            PaintOp::Fill,
            PaintOp::SourceMean { r: 98, g: 58, b: 18, n: 4 },
            box_op(2, 0, 2, 2),
            PaintOp::Fill,
            PaintOp::Restore,
        ]
    );
}

#[test]
fn mosaic_cells_are_cut_at_the_image() {
    let image = image();
    let pixels = image.pixels();
    // Cells of three pixels from (1, 0) on, on a selection at (2, -1).
    let c = DrawCommand::Mosaic { x: UNIT, y: 0, w: 2 * UNIT, h: 2 * UNIT, block: 3 };
    let mut out = Vec::new();
    render_command(&mut out, &c, Some(&pixels), px(2, -1));
    assert_eq!(
        out,
        vec![
            PaintOp::Save,
            PaintOp::SourceMean { r: 50, g: 30, b: 10, n: 2 },
            box_op(1, 0, 2, 2),
            PaintOp::Fill,
            PaintOp::Restore,
        ]
    );
    // Cells have at least two pixels; those off the image are left out.
    let c = DrawCommand::Mosaic { x: 0, y: 0, w: 4 * UNIT, h: UNIT, block: 0 };
    let mut out = Vec::new();
    render_command(&mut out, &c, Some(&pixels), px(3, 0));
    assert_eq!(out.len(), 5);
    assert_eq!(out[2], box_op(0, 0, 2, 1));
}

#[test]
fn mosaics_stay_in_their_rectangle() {
    let red = Argb32Image::from_bytes(8, 8, [0, 0, 255, 255].repeat(64));
    let pixels = red.pixels();
    let c = DrawCommand::Mosaic { x: 0, y: 0, w: 5 * UNIT, h: 4 * UNIT, block: 4 };
    let mut out = Vec::new();
    render_command(&mut out, &c, Some(&pixels), origin());
    assert_eq!(
        out,
        vec![
            PaintOp::Save,
            PaintOp::SourceMean { r: 4080, g: 0, b: 0, n: 16 },
            box_op(0, 0, 4, 4),
            PaintOp::Fill,
            PaintOp::SourceMean { r: 4080, g: 0, b: 0, n: 16 },
            box_op(4, 0, 1, 4),
            PaintOp::Fill,
            PaintOp::Restore,
        ]
    );
    // Also where the rectangle starts inside a pixel.
    let c = DrawCommand::Mosaic { x: 512, y: 0, w: 2 * UNIT, h: 2 * UNIT, block: 4 };
    let mut out = Vec::new();
    render_command(&mut out, &c, Some(&pixels), origin());
    assert_eq!(out[2], PaintOp::Rectangle { x: 512, y: 0, w: 2 * UNIT, h: 2 * UNIT });
}

#[test]
fn mosaics_need_a_source() {
    let c = DrawCommand::Mosaic { x: 0, y: 0, w: 4 * UNIT, h: 2 * UNIT, block: 2 };
    assert_eq!(ops_of(&c), vec![PaintOp::Save, PaintOp::Restore]);
}

#[test]
fn stacks_are_replayed_in_order() {
    let stack = vec![
        DrawCommand::Rect { x: 1, y: 2, w: 3, h: 4, style: style() },
        DrawCommand::Line { x1: 1, y1: 2, x2: 3, y2: 4, style: style() },
    ];
    let mut all = Vec::new();
    render_stack(&mut all, &stack, None, origin());
    let mut parts = Vec::new();
    render_stack(&mut parts, &stack[..1], None, origin());
    render_stack(&mut parts, &stack[1..], None, origin());
    assert_eq!(all, parts);
    assert_eq!(all.len(), 14);
    let saves = all.iter().filter(|o| **o == PaintOp::Save).count();
    let restores = all.iter().filter(|o| **o == PaintOp::Restore).count();
    assert_eq!((saves, restores), (2, 2));
}

#[test]
fn pixels_of_a_padded_surface() {
    let data = [1, 2, 3, 4, 9, 9, 5, 6, 7, 8, 9, 9];
    let p = Pixels::new(1, 2, 6, &data);
    match p {
        Some(p) => {
            assert_eq!(p.get(0, 1), (5, 6, 7, 8));
            assert_eq!((p.width(), p.height()), (1, 2));
        }
        None => panic!("refused"),
    }
    assert!(Pixels::new(2, 2, 6, &data).is_none());
    assert!(Pixels::new(1, 3, 6, &data).is_none());
    assert!(Pixels::new(-1, 1, 6, &data).is_none());
}

#[test]
fn the_veil_spares_the_selection() {
    let veil = Color(30, 40, 55, 650);
    let mut out = Vec::new();
    draw_mask(&mut out, 100 * UNIT, 50 * UNIT, &rect(10, 10, 20, 20), SelectorState::Idle);
    assert_eq!(out, vec![PaintOp::Source(veil), box_op(0, 0, 100, 50), PaintOp::Fill]);
    let mut out = Vec::new();
    draw_mask(&mut out, 100 * UNIT, 50 * UNIT, &rect(-10, 40, 20, 20), SelectorState::Selected);
    assert_eq!(
        out,
        vec![
            PaintOp::Save,
            PaintOp::EvenOddFill,
            PaintOp::Source(veil),
            box_op(0, 0, 100, 50),
            box_op(0, 40, 10, 10),
            PaintOp::Fill,
            PaintOp::Restore,
        ]
    );
    // On another monitor there is no hole.
    let mut out = Vec::new();
    draw_mask(&mut out, 100 * UNIT, 50 * UNIT, &rect(200, 0, 20, 20), SelectorState::Selected);
    assert_eq!(out.len(), 6);
}

#[test]
fn the_border_has_eight_grips() {
    let mut out = Vec::new();
    draw_selection_border(&mut out, &rect(10, 20, 100, 60));
    assert_eq!(out.len(), 9 + 8 * 7 + 1);
    assert_eq!(out[3], box_op(10, 20, 100, 60));
    assert_eq!(out[10], box_op(4, 14, 12, 12));
    assert_eq!(out[17], box_op(54, 14, 12, 12));
    assert_eq!(out[9 + 7 * 4 + 1], box_op(104, 74, 12, 12));
    let mut none = Vec::new();
    draw_selection_border(&mut none, &rect(10, 20, 2, 60));
    assert_eq!(none, vec![]);
}

#[test]
fn the_readout_shows_the_size() {
    let sel = SelectionRect { x: 5 * UNIT, y: 100 * UNIT, w: 640 * UNIT + 512, h: 48 * UNIT };
    let readout = size_readout(&sel);
    assert_eq!(readout.width, "640");
    assert_eq!(readout.separator, " \u{d7} ");
    assert_eq!(readout.height, "48");
    let ext = ReadoutExtents::measured(Some(30 * UNIT), None, Some(15 * UNIT), None);
    assert_eq!(ext.separator, 20 * UNIT);
    assert_eq!(ext.line, 12 * UNIT);
    let mut out = Vec::new();
    draw_size_readout(&mut out, &sel, &readout, ext);
    assert_eq!(out[0], PaintOp::FontSize(12 * UNIT));
    // 30 + 20 + 15 + 20 wide, 12 + 10 high, six pixels above.
    assert_eq!(out[3], box_op(5, 72, 85, 22));
    assert_eq!(out[10], PaintOp::MoveTo(px(15, 89)));
    assert_eq!(out[13], PaintOp::MoveTo(px(45, 89)));
    assert_eq!(out[16], PaintOp::MoveTo(px(65, 89)));
    // Without room above it goes inside.
    let low = SelectionRect { y: 20 * UNIT, ..sel };
    let mut out = Vec::new();
    draw_size_readout(&mut out, &low, &readout, ext);
    assert_eq!(out[3], box_op(5, 26, 85, 22));
}

#[test]
fn blocks_are_black_outside_the_image() {
    let image = image();
    let pixels = image.pixels();
    let block = read_pixel_block(&pixels, 0, 0, 2, 1);
    assert_eq!(block, vec![(0, 0, 0), (0, 0, 0), (0, 0, 0), (20, 10, 0)]);
    let block = read_pixel_block(&pixels, i32::MAX, i32::MIN, 1, -5);
    assert_eq!(block, vec![(0, 0, 0)]);
    let block = read_pixel_block(&pixels, -2, -2, 1, -3);
    assert_eq!(block, vec![(25, 15, 5)]);
    let block = read_pixel_block(&pixels, 3, 1, 2, 0);
    assert_eq!(block[0], (27, 17, 7));
    assert_eq!(block[1], (0, 0, 0));
}

#[test]
fn the_magnifier_shows_the_pixels_around_the_pointer() {
    let image = image();
    let pixels = image.pixels();
    let at = Point { x: 2 * UNIT + 700, y: UNIT };
    let caption = magnifier_caption(&pixels, at);
    assert_eq!(caption, "RGB(26, 16, 6)");
    assert_eq!(magnifier_caption(&pixels, px(-5, 0)), "RGB(0, 0, 0)");
    let mut out = Vec::new();
    let cfg = MagnifierConfig::default();
    draw_magnifier(&mut out, &pixels, at, px(100, 50), &cfg, &caption, 40 * UNIT);
    assert_eq!(out.len(), 6 + 64 * 3 + 24);
    assert_eq!(out[1], PaintOp::Circle { x: 180 * UNIT, y: 130 * UNIT, r: 60 * UNIT });
    // The first cell shows nothing, the one at (4, 4) the pixel at the pointer.
    assert_eq!(out[6], PaintOp::SourceRgb { r: 0, g: 0, b: 0 });
    assert_eq!(out[7], box_op(132, 82, 12, 12));
    let k = 6 + 3 * 36;
    assert_eq!(out[k], PaintOp::SourceRgb { r: 26, g: 16, b: 6 });
    assert_eq!(out[k + 1], box_op(180, 130, 12, 12));
    assert_eq!(out[6 + 64 * 3 + 2], box_op(180, 130, 24, 24));
    assert_eq!(out[6 + 64 * 3 + 11], PaintOp::MoveTo(px(160, 182)));
}

#[test]
fn captions_that_cannot_be_measured() {
    assert_eq!(caption_width(None), 80 * UNIT);
    assert_eq!(caption_width(Some(17)), 17);
}

#[test]
fn overlays_follow_the_state() {
    let image = image();
    let pixels = image.pixels();
    let mut s = Selector::new(400, 300);
    s.pointer_moved(px(50, 50));
    let count = |s: &Selector, at: Point| {
        let readout = size_readout(&s.selection());
        let caption = magnifier_caption(&pixels, s.cursor());
        let labels = Labels {
            readout: &readout,
            extents: ReadoutExtents::measured(None, None, None, None),
            caption: &caption,
            caption_w: 80 * UNIT,
        };
        let mut out = Vec::new();
        draw_overlay(&mut out, Scene::of(s), labels, 400 * UNIT, 300 * UNIT, at, &pixels);
        out.len()
    };
    let lens = 6 + 64 * 3 + 24;
    // Idle: the veil and the magnifier, unless the pointer is far away.
    assert_eq!(count(&s, origin()), 3 + lens);
    assert_eq!(count(&s, px(200, 0)), 3);
    s.drag_begin(px(10, 10));
    s.drag_update(px(100, 50));
    // Selecting: also the size and the border.
    assert_eq!(count(&s, origin()), 7 + 19 + 66 + lens);
    s.drag_end();
    // Selected: the annotations and the border, and no magnifier.
    assert_eq!(count(&s, origin()), 7 + 5 + 66);
}

#[test]
fn rendering_crops_and_annotates() {
    let image = image();
    let pixels = image.pixels();
    let commands = vec![DrawCommand::Rect { x: 1, y: 2, w: 3, h: 4, style: style() }];
    let sel = SelectionRect { x: UNIT, y: 2 * UNIT, w: 3 * UNIT + 1000, h: 4 * UNIT };
    match crop_and_render(&pixels, &sel, &commands) {
        Ok(r) => {
            assert_eq!((r.width, r.height), (3, 4));
            assert_eq!(r.ops.len(), 7);
            assert_eq!(r.ops[0], PaintOp::Image(px(-1, -2)));
            assert_eq!(r.ops[1], PaintOp::Save);
        }
        Err(EmptySelection) => panic!("empty"),
    }
    let thin = SelectionRect { h: 1023, ..sel };
    assert!(matches!(crop_and_render(&pixels, &thin, &commands), Err(EmptySelection)));
}

fn monitor(x: i32, y: i32, w: i32, h: i32) -> MonitorGeom {
    MonitorGeom { x, y, w, h }
}

#[test]
fn the_desktop_spans_all_monitors() {
    let ms = [monitor(1920, 120, 1920, 1080), monitor(0, 0, 1920, 1200)];
    assert_eq!(desktop_bounds(&ms), (0, 0, 3840, 1200));
    assert_eq!(desktop_bounds(&[]), (0, 0, 0, 0));
    assert_eq!(desktop_bounds(&[monitor(-100, -50, 30, 20)]), (-100, -50, 30, 20));
}

#[test]
fn desktops_that_cannot_be_measured() {
    assert!(!is_spannable(&[monitor(i32::MAX, 0, 1, 1)]));
    assert!(!is_spannable(&[monitor(i32::MIN, 0, 1, 1), monitor(0, 0, 1, 1)]));
    assert!(!is_spannable(&[monitor(i32::MIN, 0, -1, 1)]));
    assert!(is_spannable(&[monitor(0, 0, -1, 1)]));
    assert!(is_spannable(&[]));
    assert!(matches!(Desktop::new(vec![], 10, 10), Err(DesktopError::NoMonitors)));
    assert!(matches!(
        Desktop::new(vec![monitor(0, i32::MAX, 1, 1)], 10, 10),
        Err(DesktopError::Unbounded)
    ));
}

fn desktop(ms: Vec<MonitorGeom>, w: i32, h: i32) -> Desktop {
    match Desktop::new(ms, w, h) {
        Ok(d) => d,
        Err(e) => panic!("{:?}", e),
    }
}

#[test]
fn monitors_show_their_part() {
    let ms = vec![monitor(0, 0, 1000, 500), monitor(1000, 0, 1000, 500)];
    let d = desktop(ms.clone(), 2000, 500);
    assert_eq!(d.len(), 2);
    assert_eq!(d.monitor(1), ms[1]);
    assert_eq!(d.origin(1), px(1000, 0));
    assert_eq!(d.crop(1), MonitorCrop { src_x: 1000, src_y: 0, dst_w: 1000, dst_h: 500 });
    // A capture at one and a half times the size.
    let d = desktop(ms, 3001, 750);
    assert_eq!(d.origin(1), Point { x: 1500 * UNIT + 512, y: 0 });
    assert_eq!(d.crop(1), MonitorCrop { src_x: 1501, src_y: 0, dst_w: 1501, dst_h: 750 });
    let d = desktop(vec![monitor(0, 0, 0, 0)], 10, 10);
    assert_eq!(d.crop(0), MonitorCrop { src_x: 0, src_y: 0, dst_w: 1, dst_h: 1 });
}

#[test]
fn monitors_without_a_proper_size() {
    let d = desktop(vec![monitor(0, 0, 100, 100), monitor(60, 0, -10, 0)], 100, 100);
    assert_eq!(d.origin(1), px(60, 0));
    assert_eq!(d.crop(1), MonitorCrop { src_x: 60, src_y: 0, dst_w: 1, dst_h: 1 });
    // Without an extent nothing is scaled.
    let d = desktop(vec![monitor(0, 0, -10, 5), monitor(30, 0, -80, 5)], 100, 5);
    assert_eq!(d.origin(1), px(30, 0));
}

#[test]
fn the_toolbar_goes_to_the_monitor_with_the_centre() {
    let ms = vec![monitor(0, 0, 1000, 500), monitor(1000, 0, 1000, 500)];
    let d = desktop(ms, 2000, 500);
    assert_eq!(d.host(&rect(900, 100, 199, 50)), 0);
    assert_eq!(d.host(&rect(900, 100, 200, 50)), 1);
    // Off all monitors: the first.
    assert_eq!(d.host(&rect(5000, 100, 200, 50)), 0);
    assert_eq!(
        d.place_toolbar(&rect(1100, 100, 200, 50)),
        Placement { host: 1, margin_start: 100, margin_top: 154 }
    );
}

#[test]
fn the_toolbar_stays_clear_of_the_selection() {
    let below = rect(30, 100, 50, 50);
    assert_eq!(position_toolbar(&below, 500 * UNIT), (30, 154));
    // Exactly enough room.
    assert_eq!(position_toolbar(&below, 206 * UNIT), (30, 154));
    assert_eq!(position_toolbar(&below, 205 * UNIT), (30, 44));
    // No room at all.
    assert_eq!(position_toolbar(&rect(-30, 10, 50, 50), 80 * UNIT), (0, 0));
}
