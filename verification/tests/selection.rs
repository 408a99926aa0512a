use glint_screenshot::drag::{Drag, DragMode, SelectorState};
use glint_screenshot::selection::{
    hit_test, move_rect, resize_rect, select_dragged, trim_rect, Handle, Hit,
};
use glint_screenshot::tools::ToolKind;
use glint_screenshot::units::{divide_nearest, to_even_pixels, to_pixels, Point, UNIT};
use glint_screenshot::SelectionRect;

fn px(x: i64, y: i64) -> Point {
    Point { x: x * UNIT, y: y * UNIT }
}

fn rect(x: i64, y: i64, w: i64, h: i64) -> SelectionRect {
    SelectionRect { x: x * UNIT, y: y * UNIT, w: w * UNIT, h: h * UNIT }
}

#[test]
fn whole_pixels_round_towards_zero() {
    assert_eq!(to_pixels(5 * UNIT + 1023), 5);
    assert_eq!(to_pixels(-5 * UNIT - 1023), -5);
    assert_eq!(to_pixels(-1), 0);
}

#[test]
fn labels_round_ties_to_even() {
    assert_eq!(to_even_pixels(2 * UNIT + 512), 2);
    assert_eq!(to_even_pixels(3 * UNIT + 512), 4);
    assert_eq!(to_even_pixels(3 * UNIT + 511), 3);
    assert_eq!(to_even_pixels(2 * UNIT + 513), 3);
}

#[test]
fn quotients_round_ties_away_from_zero() {
    assert_eq!(divide_nearest(5, 2), 3);
    assert_eq!(divide_nearest(-5, 2), -3);
    assert_eq!(divide_nearest(7, 3), 2);
    assert_eq!(divide_nearest(-7, 3), -2);
}

#[test]
fn trivial_selections() {
    assert!(SelectionRect::default().is_trivial());
    assert!(rect(0, 0, 3, 2).is_trivial());
    assert!(rect(0, 0, 2, 3).is_trivial());
    assert!(!rect(0, 0, 3, 3).is_trivial());
    assert!(SelectionRect { x: 0, y: 0, w: 3 * UNIT - 1, h: 9 * UNIT }.is_trivial());
}

#[test]
fn borders_belong_to_the_selection() {
    let r = rect(10, 20, 30, 40);
    assert!(r.contains(10 * UNIT, 20 * UNIT));
    assert!(r.contains(40 * UNIT, 60 * UNIT));
    assert!(!r.contains(40 * UNIT + 1, 60 * UNIT));
    assert!(!r.contains(10 * UNIT, 20 * UNIT - 1));
}

#[test]
fn local_coordinates_round_trip() {
    let r = rect(10, 20, 30, 40);
    let local = r.to_local(px(7, 9));
    assert_eq!(local, rect(3, 11, 30, 40));
    assert_eq!(local.to_local(px(-7, -9)), r);
}

#[test]
fn hits_on_a_selection() {
    let r = rect(100, 100, 200, 100);
    let at = |x: i64, y: i64| hit_test(&r, x * UNIT, y * UNIT);
    assert_eq!(at(100, 100), Hit::Edge(Handle::TopLeft));
    assert_eq!(at(300, 100), Hit::Edge(Handle::TopRight));
    assert_eq!(at(300, 200), Hit::Edge(Handle::BottomRight));
    assert_eq!(at(100, 200), Hit::Edge(Handle::BottomLeft));
    assert_eq!(at(200, 97), Hit::Edge(Handle::Top));
    assert_eq!(at(200, 203), Hit::Edge(Handle::Bottom));
    assert_eq!(at(93, 150), Hit::Edge(Handle::Left));
    assert_eq!(at(307, 150), Hit::Edge(Handle::Right));
    assert_eq!(at(200, 150), Hit::Inside);
    assert_eq!(at(50, 150), Hit::Outside);
    // Eight pixels away is no longer near.
    assert_eq!(at(92, 150), Hit::Outside);
    assert_eq!(at(108, 150), Hit::Inside);
}

#[test]
fn small_selections_prefer_the_upper_left_grip() {
    let r = rect(100, 100, 4, 4);
    assert_eq!(hit_test(&r, 102 * UNIT, 102 * UNIT), Hit::Edge(Handle::TopLeft));
}

#[test]
fn resizing_moves_only_the_grabbed_edges() {
    let r = rect(100, 100, 200, 100);
    let to = |h: Handle, x: i64, y: i64| resize_rect(&r, h, x * UNIT, y * UNIT);
    assert_eq!(to(Handle::TopLeft, 90, 80), rect(90, 80, 210, 120));
    assert_eq!(to(Handle::Top, 90, 80), rect(100, 80, 200, 120));
    assert_eq!(to(Handle::TopRight, 310, 80), rect(100, 80, 210, 120));
    assert_eq!(to(Handle::Right, 310, 80), rect(100, 100, 210, 100));
    assert_eq!(to(Handle::BottomRight, 310, 220), rect(100, 100, 210, 120));
    assert_eq!(to(Handle::Bottom, 310, 220), rect(100, 100, 200, 120));
    assert_eq!(to(Handle::BottomLeft, 90, 220), rect(90, 100, 210, 120));
    assert_eq!(to(Handle::Left, 90, 220), rect(90, 100, 210, 100));
}

#[test]
fn resizing_past_the_other_edge_turns_the_selection_over() {
    let r = rect(100, 100, 200, 100);
    assert_eq!(resize_rect(&r, Handle::Left, 350 * UNIT, 0), rect(300, 100, 50, 100));
}

#[test]
fn dragging_in_any_direction_selects_the_same() {
    let a = select_dragged(px(10, 10), px(30, 20));
    let b = select_dragged(px(40, 30), px(-30, -20));
    assert_eq!(a, rect(10, 10, 30, 20));
    assert_eq!(a, b);
}

#[test]
fn moved_selections_stay_on_the_screen() {
    let r = rect(10, 10, 30, 20);
    assert_eq!(move_rect(&r, px(5, 6), 100 * UNIT, 100 * UNIT), rect(15, 16, 30, 20));
    assert_eq!(move_rect(&r, px(500, -500), 100 * UNIT, 100 * UNIT), rect(70, 0, 30, 20));
    // Larger than the screen: put at its edge.
    assert_eq!(move_rect(&r, px(5, 6), 20 * UNIT, 10 * UNIT), rect(0, 0, 30, 20));
}

#[test]
fn trimmed_selections_end_on_the_screen() {
    assert_eq!(trim_rect(&rect(-10, -5, 50, 30), 100 * UNIT, 20 * UNIT), rect(0, 0, 50, 20));
    assert_eq!(trim_rect(&rect(90, 5, 50, 10), 100 * UNIT, 100 * UNIT), rect(90, 5, 10, 10));
    assert_eq!(trim_rect(&rect(120, 5, 50, 10), 100 * UNIT, 100 * UNIT), rect(120, 5, 0, 10));
}

#[test]
fn a_drag_selects() {
    let d = Drag::new().begin(ToolKind::Select, px(10, 10));
    assert_eq!(d.state, SelectorState::Selecting);
    assert_eq!(d.mode, Some(DragMode::Selection));
    let d = d.update(px(50, 50), 200 * UNIT, 200 * UNIT);
    // Only the last motion counts.
    let d = d.update(px(20, 30), 200 * UNIT, 200 * UNIT).end();
    assert_eq!(d.state, SelectorState::Selected);
    assert_eq!(d.selection, rect(10, 10, 20, 30));
    assert_eq!(d.mode, None);
}

#[test]
fn a_short_drag_selects_nothing() {
    let d = Drag::new().begin(ToolKind::Rect, px(10, 10));
    let d = d.update(px(2, 30), 200 * UNIT, 200 * UNIT).end();
    assert_eq!(d.state, SelectorState::Idle);
}

fn selected() -> Drag {
    Drag::new()
        .begin(ToolKind::Select, px(10, 10))
        .update(px(50, 40), 200 * UNIT, 200 * UNIT)
        .end()
}

#[test]
fn a_press_inside_moves() {
    let d = selected().begin(ToolKind::Select, px(30, 30));
    assert_eq!(d.mode, Some(DragMode::Moving { orig: rect(10, 10, 50, 40) }));
    let d = d.update(px(1000, 1), 200 * UNIT, 200 * UNIT);
    assert_eq!(d.selection, rect(150, 11, 50, 40));
    let d = d.update(px(0, 0), 200 * UNIT, 200 * UNIT).end();
    assert_eq!(d, Drag { start: px(30, 30), ..selected() });
}

#[test]
fn a_press_on_an_edge_resizes() {
    let d = selected().begin(ToolKind::Select, px(60, 30));
    assert_eq!(
        d.mode,
        Some(DragMode::Resizing { handle: Handle::Right, orig: rect(10, 10, 50, 40) })
    );
    let d = d.update(px(500, 0), 200 * UNIT, 200 * UNIT);
    assert_eq!(d.selection, rect(10, 10, 190, 40));
    // Shrunk to nothing, the selection is still there.
    let d = d.update(px(-50, 0), 200 * UNIT, 200 * UNIT).end();
    assert_eq!(d.selection, rect(10, 10, 0, 40));
    assert_eq!(d.state, SelectorState::Selected);
}

#[test]
fn a_press_outside_starts_over() {
    let d = selected().begin(ToolKind::Select, px(150, 150));
    assert_eq!(d.state, SelectorState::Selecting);
    assert_eq!(d.selection, SelectionRect::default());
}

#[test]
fn a_trivial_selection_cannot_be_grabbed() {
    let shrunk = selected()
        .begin(ToolKind::Select, px(60, 30))
        .update(px(-50, 0), 200 * UNIT, 200 * UNIT)
        .end();
    let d = shrunk.begin(ToolKind::Select, px(10, 30));
    assert_eq!(d.mode, Some(DragMode::Selection));
}

#[test]
fn drawing_keeps_the_selection() {
    let d = selected().begin(ToolKind::Brush, px(30, 35));
    assert_eq!(d.mode, Some(DragMode::Drawing));
    assert_eq!(d.start, px(20, 25));
    let d = d.update(px(5, 5), 200 * UNIT, 200 * UNIT).end();
    assert_eq!(d.selection, selected().selection);
    assert_eq!(d.state, SelectorState::Selected);
}

#[test]
fn nothing_happens_without_a_press() {
    let d = selected();
    assert_eq!(d.update(px(5, 5), 200 * UNIT, 200 * UNIT), d);
    assert_eq!(d.end(), d);
}
