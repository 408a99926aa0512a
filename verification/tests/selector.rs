use glint_screenshot::drag::SelectorState;
use glint_screenshot::selector::{
    key_pressed, CursorShape, Effect, KeyPress, RedrawGate, Release, KEY_ESCAPE, KEY_LOWER_C, KEY_LOWER_P,
    KEY_LOWER_S, KEY_UPPER_C, KEY_UPPER_P, KEY_UPPER_S,
};
use glint_screenshot::toolbar::{Request, Swatch, Thickness};
use glint_screenshot::units::{Point, UNIT};
use glint_screenshot::{
    build_toolbar, Color, DrawCommand, History, MagnifierConfig, SelectionRect, Selector,
    StrokeStyle, ToolKind, ToolbarItem, ToolbarState,
};

fn px(x: i64, y: i64) -> Point {
    Point { x: x * UNIT, y: y * UNIT }
}

fn rect(x: i64, y: i64, w: i64, h: i64) -> SelectionRect {
    SelectionRect { x: x * UNIT, y: y * UNIT, w: w * UNIT, h: h * UNIT }
}

fn drag(s: &mut Selector, from: Point, by: Point) -> Release {
    s.drag_begin(from);
    s.drag_update(by);
    s.drag_end()
}

/// A selector with the rectangle from (10, 10) to (110, 60) selected.
fn with_selection() -> Selector {
    let mut s = Selector::new(400, 300);
    let r = drag(&mut s, px(10, 10), px(100, 50));
    assert_eq!(r, Release::PlaceToolbar(rect(10, 10, 100, 50)));
    s
}

fn with_tool(tool: ToolKind) -> Selector {
    let mut s = with_selection();
    assert_eq!(s.click(ToolbarItem::Tool(tool)), None);
    s
}

#[test]
fn a_new_selector_is_idle() {
    let s = Selector::new(400, 300);
    assert_eq!(s.drag().state, SelectorState::Idle);
    assert_eq!(s.commands().len(), 0);
    assert!(s.current().is_none());
    assert_eq!(s.toolbar(), ToolbarState::default());
    assert_eq!(s.magnifier(), MagnifierConfig::default());
    assert!(!s.is_pinned());
}

#[test]
fn default_magnifier() {
    let m = MagnifierConfig::default();
    assert_eq!(m.radius, 60 * UNIT);
    assert_eq!(m.zoom, 8);
    assert_eq!((m.offset_x, m.offset_y), (80 * UNIT, 80 * UNIT));
}

#[test]
fn a_trivial_drag_hides_the_toolbar() {
    let mut s = Selector::new(400, 300);
    assert_eq!(drag(&mut s, px(10, 10), px(2, 50)), Release::HideToolbar);
    assert_eq!(s.drag().state, SelectorState::Idle);
}

#[test]
fn moving_the_selection_places_the_toolbar_again() {
    let mut s = with_selection();
    let r = drag(&mut s, px(50, 30), px(10, 10));
    assert_eq!(r, Release::PlaceToolbar(rect(20, 20, 100, 50)));
}

#[test]
fn resizing_to_nothing_asks_for_nothing() {
    let mut s = with_selection();
    assert_eq!(drag(&mut s, px(110, 30), px(-100, 0)), Release::Nothing);
    assert_eq!(s.drag().state, SelectorState::Selected);
}

#[test]
fn boxes_are_drawn_relative_to_the_selection() {
    let mut s = with_tool(ToolKind::Rect);
    assert_eq!(drag(&mut s, px(60, 40), px(-20, -10)), Release::Nothing);
    assert_eq!(s.commands().len(), 1);
    match &s.commands()[0] {
        DrawCommand::Rect { x, y, w, h, style } => {
            assert_eq!((*x, *y), (30 * UNIT, 20 * UNIT));
            assert_eq!((*w, *h), (20 * UNIT, 10 * UNIT));
            assert_eq!(*style, StrokeStyle::default());
        }
        other => panic!("{:?}", other),
    }
}

#[test]
fn every_tool_draws_its_command() {
    let mut s = with_tool(ToolKind::Ellipse);
    drag(&mut s, px(20, 20), px(10, 10));
    s.click(ToolbarItem::Tool(ToolKind::Line));
    drag(&mut s, px(20, 20), px(10, 0));
    s.click(ToolbarItem::Tool(ToolKind::Arrow));
    drag(&mut s, px(20, 20), px(0, -10));
    s.click(ToolbarItem::Tool(ToolKind::Mosaic));
    drag(&mut s, px(20, 20), px(10, 10));
    let c = s.commands();
    assert_eq!(c.len(), 4);
    assert!(matches!(&c[0], DrawCommand::Ellipse { x, w, .. } if *x == 10 * UNIT && *w == 10 * UNIT));
    assert!(matches!(&c[1], DrawCommand::Line { x1, y1, x2, y2, .. }
        if (*x1, *y1, *x2, *y2) == (10 * UNIT, 10 * UNIT, 20 * UNIT, 10 * UNIT)));
    assert!(matches!(&c[2], DrawCommand::Arrow { x2, y2, .. }
        if (*x2, *y2) == (10 * UNIT, 0)));
    assert!(matches!(&c[3], DrawCommand::Mosaic { block: 12, .. }));
}

#[test]
fn brushes_collect_points() {
    let mut s = with_tool(ToolKind::Brush);
    s.drag_begin(px(20, 20));
    s.drag_update(px(1, 0));
    s.drag_update(px(1, 1));
    assert!(s.current().is_some());
    s.drag_end();
    assert!(s.current().is_none());
    match &s.commands()[0] {
        DrawCommand::Brush { points, .. } => {
            assert_eq!(points, &vec![px(10, 10), px(11, 10), px(11, 11)]);
        }
        other => panic!("{:?}", other),
    }
}

#[test]
fn small_drawings_leave_no_trace() {
    let mut s = with_tool(ToolKind::Rect);
    drag(&mut s, px(20, 20), px(2, 50));
    s.click(ToolbarItem::Tool(ToolKind::Line));
    drag(&mut s, px(20, 20), px(2, 2));
    s.click(ToolbarItem::Tool(ToolKind::Brush));
    s.drag_begin(px(20, 20));
    s.drag_end();
    assert_eq!(s.commands().len(), 0);
    // A line counts if it is long in one direction.
    s.click(ToolbarItem::Tool(ToolKind::Line));
    drag(&mut s, px(20, 20), px(0, 3));
    assert_eq!(s.commands().len(), 1);
}

#[test]
fn the_text_tool_asks_for_a_text() {
    let mut s = with_tool(ToolKind::Text);
    let r = drag(&mut s, px(20, 30), px(7, 7));
    assert_eq!(r, Release::AskText { pos: px(10, 20), style: StrokeStyle::default() });
    assert_eq!(s.commands().len(), 0);
    s.text_entered(px(10, 20), StrokeStyle::default(), String::new());
    assert_eq!(s.commands().len(), 0);
    s.text_entered(px(10, 20), StrokeStyle::default(), "hello".to_string());
    match &s.commands()[0] {
        DrawCommand::Text { x, y, text, size, color } => {
            assert_eq!((*x, *y), (10 * UNIT, 20 * UNIT));
            assert_eq!(text, "hello");
            assert_eq!(*size, 20 * UNIT);
            assert_eq!(*color, Color::red());
        }
        other => panic!("{:?}", other),
    }
}

#[test]
fn thin_lines_get_texts_of_sixteen_pixels() {
    let mut s = with_tool(ToolKind::Text);
    s.click(ToolbarItem::Width(Thickness::Two));
    let style = s.toolbar().style;
    s.text_entered(px(0, 0), style, "x".to_string());
    assert!(matches!(&s.commands()[0], DrawCommand::Text { size, .. } if *size == 16 * UNIT));
}

#[test]
fn a_new_selection_drops_the_annotations() {
    let mut s = with_tool(ToolKind::Rect);
    drag(&mut s, px(20, 20), px(10, 10));
    drag(&mut s, px(20, 20), px(20, 20));
    s.undo();
    s.click(ToolbarItem::Tool(ToolKind::Select));
    s.drag_begin(px(300, 200));
    assert_eq!(s.commands().len(), 0);
    assert!(!s.redo());
    assert!(!s.undo());
}

#[test]
fn moving_keeps_the_annotations() {
    let mut s = with_tool(ToolKind::Rect);
    drag(&mut s, px(20, 20), px(10, 10));
    s.click(ToolbarItem::Tool(ToolKind::Select));
    drag(&mut s, px(50, 30), px(10, 10));
    assert_eq!(s.commands().len(), 1);
}

#[test]
fn undo_and_redo() {
    let mut s = with_tool(ToolKind::Rect);
    drag(&mut s, px(20, 20), px(10, 10));
    drag(&mut s, px(20, 20), px(20, 20));
    assert!(s.undo());
    assert_eq!(s.commands().len(), 1);
    assert!(s.redo());
    assert_eq!(s.commands().len(), 2);
    assert!(!s.redo());
    assert!(s.undo());
    // A new drawing leaves nothing to redo.
    drag(&mut s, px(20, 20), px(30, 30));
    assert!(!s.redo());
    assert_eq!(s.commands().len(), 2);
}

#[test]
fn history_keeps_the_order() {
    let line = |n: i64| DrawCommand::Line {
        x1: 0,
        y1: 0,
        x2: n * UNIT,
        y2: 0,
        style: StrokeStyle::default(),
    };
    let mut h = History::new();
    assert!(!h.undo());
    assert!(h.commit(line(10)));
    assert!(h.commit(line(20)));
    assert!(!h.commit(line(1)));
    assert!(h.undo());
    assert!(h.undo());
    assert_eq!(h.redo_len(), 2);
    assert!(h.redo());
    assert!(matches!(&h.commands()[0], DrawCommand::Line { x2, .. } if *x2 == 10 * UNIT));
    // A trivial command does not touch what can be redone.
    assert!(!h.commit(line(2)));
    assert_eq!(h.redo_len(), 1);
    h.clear();
    assert_eq!((h.commands().len(), h.redo_len()), (0, 0));
}

#[test]
fn pointer_shapes() {
    let mut s = Selector::new(400, 300);
    let m = s.pointer_moved(px(5, 5));
    assert_eq!(m.shape, Some(CursorShape::Crosshair));
    assert!(m.redraw);
    // The same look again is no change.
    assert_eq!(s.pointer_moved(px(6, 6)).shape, None);

    let mut s = with_selection();
    let m = s.pointer_moved(px(60, 35));
    assert_eq!(m.shape, Some(CursorShape::Move));
    assert!(!m.redraw);
    assert_eq!(s.pointer_moved(px(10, 10)).shape, Some(CursorShape::NwseResize));
    assert_eq!(s.pointer_moved(px(110, 10)).shape, Some(CursorShape::NeswResize));
    assert_eq!(s.pointer_moved(px(60, 10)).shape, Some(CursorShape::NsResize));
    assert_eq!(s.pointer_moved(px(10, 35)).shape, Some(CursorShape::EwResize));
    assert_eq!(s.pointer_moved(px(300, 200)).shape, Some(CursorShape::Crosshair));
    s.click(ToolbarItem::Tool(ToolKind::Brush));
    assert_eq!(s.pointer_moved(px(60, 35)).shape, Some(CursorShape::Default));
    assert_eq!(s.cursor(), px(60, 35));
}

#[test]
fn shape_names() {
    assert_eq!(CursorShape::NwseResize.name(), "nwse-resize");
    assert_eq!(CursorShape::Default.name(), "default");
}

#[test]
fn shortcuts() {
    let press = |key: u32, ctrl: bool| key_pressed(key, ctrl);
    for key in [KEY_LOWER_C, KEY_UPPER_C] {
        assert_eq!(press(key, true), KeyPress { request: Some(Request::Copy), stop: true });
    }
    for key in [KEY_LOWER_S, KEY_UPPER_S] {
        assert_eq!(press(key, true), KeyPress { request: Some(Request::Save), stop: true });
    }
    for key in [KEY_LOWER_P, KEY_UPPER_P] {
        assert_eq!(press(key, true), KeyPress { request: Some(Request::Pin), stop: true });
    }
    assert_eq!(press(KEY_LOWER_C, false), KeyPress { request: None, stop: false });
    assert_eq!(press(KEY_ESCAPE, false), KeyPress { request: Some(Request::Exit), stop: false });
    assert_eq!(press(KEY_ESCAPE, true), KeyPress { request: None, stop: false });
}

#[test]
fn confirming() {
    let mut s = with_selection();
    assert_eq!(s.begin_save(false), Effect::Stay);
    assert_eq!(s.begin_save(true), Effect::HideAndAskPath);
    assert_eq!(s.finish_save(false), Effect::ShowAgain);
    assert_eq!(s.finish_save(true), Effect::Quit);
    assert!(!s.is_pinned());

    let mut s = with_selection();
    assert_eq!(s.copy(), Effect::HideAndQuitAfter(10));
    assert!(!s.is_pinned());

    let mut s = with_selection();
    assert_eq!(s.pin(false), Effect::Quit);
    assert!(!s.is_pinned());
    assert_eq!(s.pin(true), Effect::Quit);
    assert!(s.is_pinned());
    assert_eq!(s.exit(), Effect::Quit);
    assert!(!s.is_pinned());
}

#[test]
fn toolbar_layout() {
    let mut state = ToolbarState::default();
    state.active_tool = ToolKind::Text;
    let items = build_toolbar(&mut state);
    assert_eq!(state.active_tool, ToolKind::Select);
    assert_eq!(items.len(), 29);
    assert_eq!(items[0], ToolbarItem::Tool(ToolKind::Select));
    assert_eq!(items[8], ToolbarItem::Separator);
    assert_eq!(items[28], ToolbarItem::Button(Request::Exit));
    let active: Vec<ToolbarItem> =
        items.iter().copied().filter(|i| state.is_active(*i)).collect();
    assert_eq!(
        active,
        vec![
            ToolbarItem::Tool(ToolKind::Select),
            ToolbarItem::Color(Swatch::Red),
            ToolbarItem::Width(Thickness::Four),
        ]
    );
}

#[test]
fn toolbar_choices_are_exclusive() {
    let mut state = ToolbarState::default();
    assert_eq!(state.click(ToolbarItem::Color(Swatch::Blue)), None);
    assert_eq!(state.style, StrokeStyle { color: Color(231, 510, 965, 1000), width: 4 * UNIT });
    assert!(state.is_active(ToolbarItem::Color(Swatch::Blue)));
    assert!(!state.is_active(ToolbarItem::Color(Swatch::Red)));
    assert_eq!(state.click(ToolbarItem::Width(Thickness::Eight)), None);
    assert_eq!(state.style.width, 8 * UNIT);
    assert_eq!(state.click(ToolbarItem::Button(Request::Undo)), Some(Request::Undo));
    assert_eq!(state.click(ToolbarItem::Separator), None);
}

#[test]
fn palette() {
    assert_eq!(Swatch::Red.color(), Color(929, 267, 267, 1000));
    assert_eq!(Swatch::Orange.color(), Color(976, 451, 86, 1000));
    assert_eq!(Swatch::Yellow.color(), Color(918, 702, 31, 1000));
    assert_eq!(Swatch::Green.color(), Color(133, 773, 369, 1000));
    assert_eq!(Swatch::White.color(), Color(973, 980, 988, 1000));
    assert_eq!(Swatch::Black.color(), Color(94, 94, 106, 1000));
    assert_eq!(Thickness::Two.width(), 2 * UNIT);
    assert_eq!(Thickness::Six.width(), 6 * UNIT);
}

#[test]
fn requests_to_draw_are_bundled() {
    let mut gate = RedrawGate::new();
    assert!(gate.request());
    assert!(!gate.request());
    gate.drain();
    assert!(gate.request());
}
