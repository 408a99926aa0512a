//! What a pointer drag does to the selection.

use crate::selection::{
    self, hit_test, move_rect, resize_rect, select_dragged, trim_rect, Handle, Hit, SelectionRect,
};
use crate::tools::ToolKind;
use crate::units::{Point, REACH};
use vstd::prelude::*;

verus! {

/// Bound on a side of the screen, in coordinate units: the largest image.
pub const MAX_SCREEN: i64 = 0x200_0000;

/// How far the selection has come.
#[derive(Debug, Clone, Copy, PartialEq, Eq, Structural)]
pub enum SelectorState {
    /// Nothing is selected.
    Idle,
    /// A selection is being dragged out.
    Selecting,
    /// A selection was made.
    Selected,
}

/// What the drag under way does.
#[derive(Debug, Clone, Copy, PartialEq, Eq, Structural)]
pub enum DragMode {
    /// Drags out a new selection.
    Selection,
    /// Draws an annotation.
    Drawing,
    /// Moves the selection, which was `orig` when the drag began.
    Moving { orig: SelectionRect },
    /// Moves edges of the selection, which was `orig` when the drag began.
    Resizing { handle: Handle, orig: SelectionRect },
}

/// The selection and the drag under way, if any.
#[derive(Debug, Clone, Copy, PartialEq, Eq, Structural)]
pub struct Drag {
    pub state: SelectorState,
    pub selection: SelectionRect,
    pub mode: Option<DragMode>,
    /// Where the drag began: on the screen, or inside the selection when it
    /// draws.
    pub start: Point,
}

/// The rectangle is one that drags can lead to.
pub open spec fn reachable(r: SelectionRect) -> bool {
    &&& -2 * REACH <= r.x <= 2 * REACH
    &&& -2 * REACH <= r.y <= 2 * REACH
    &&& 0 <= r.w <= REACH
    &&& 0 <= r.h <= REACH
}

/// Both sides are those of an image.
pub open spec fn is_screen(w: i64, h: i64) -> bool {
    0 <= w <= MAX_SCREEN && 0 <= h <= MAX_SCREEN
}

impl Drag {
    pub open spec fn wf(self) -> bool {
        &&& reachable(self.selection)
        &&& self.start.within(3 * REACH)
        &&& self.state is Selecting <==> self.mode == Some(DragMode::Selection)
        &&& match self.mode {
            None => true,
            Some(DragMode::Selection) => self.start.within(REACH as int),
            Some(DragMode::Drawing) => self.state is Selected,
            Some(DragMode::Moving { orig }) => self.state is Selected && reachable(orig),
            Some(DragMode::Resizing { orig, .. }) => {
                &&& self.state is Selected
                &&& reachable(orig)
                &&& self.start.within(REACH as int)
            },
        }
    }

    /// Nothing selected, no drag.
    pub open spec fn initial() -> Drag {
        Drag {
            state: SelectorState::Idle,
            selection: SelectionRect { x: 0, y: 0, w: 0, h: 0 },
            mode: None,
            start: Point { x: 0, y: 0 },
        }
    }

    /// A press at `p` begins a new selection: outside a selection with the
    /// selection tool, and anywhere while there is none.
    pub open spec fn starts_over(self, tool: ToolKind, p: Point) -> bool {
        if self.state is Selected && tool is Select && !self.selection.trivial() {
            selection::hit_at(self.selection, p) is Outside
        } else {
            tool is Select || !(self.state is Selected)
        }
    }

    /// A press at any point begins an annotation.
    pub open spec fn draws(self, tool: ToolKind) -> bool {
        self.state is Selected && !(tool is Select)
    }

    /// After a press at `p`.
    pub open spec fn begun(self, tool: ToolKind, p: Point) -> Drag {
        if self.starts_over(tool, p) {
            Drag {
                state: SelectorState::Selecting,
                selection: SelectionRect { x: 0, y: 0, w: 0, h: 0 },
                mode: Some(DragMode::Selection),
                start: p,
            }
        } else if self.draws(tool) {
            Drag {
                mode: Some(DragMode::Drawing),
                start: Point {
                    x: (p.x - self.selection.x) as i64,
                    y: (p.y - self.selection.y) as i64,
                },
                ..self
            }
        } else {
            Drag {
                mode: Some(
                    match selection::hit_at(self.selection, p) {
                        Hit::Edge(handle) => DragMode::Resizing { handle, orig: self.selection },
                        _ => DragMode::Moving { orig: self.selection },
                    },
                ),
                start: p,
                ..self
            }
        }
    }

    /// After the pointer moved to `offset` from where it was pressed.
    pub open spec fn dragged(self, offset: Point, screen_w: i64, screen_h: i64) -> Drag {
        Drag {
            selection: match self.mode {
                Some(DragMode::Selection) => selection::rubber_band(self.start, offset),
                Some(DragMode::Moving { orig }) => {
                    selection::shifted(orig, offset, screen_w, screen_h)
                },
                Some(DragMode::Resizing { handle, orig }) => selection::trimmed(
                    selection::resized(
                        orig,
                        handle,
                        Point {
                            x: (self.start.x + offset.x) as i64,
                            y: (self.start.y + offset.y) as i64,
                        },
                    ),
                    screen_w,
                    screen_h,
                ),
                Some(DragMode::Drawing) => self.selection,
                None => self.selection,
            },
            ..self
        }
    }

    /// After the release.
    pub open spec fn ended(self) -> Drag {
        Drag {
            state: if self.mode == Some(DragMode::Selection) {
                if self.selection.trivial() {
                    SelectorState::Idle
                } else {
                    SelectorState::Selected
                }
            } else {
                self.state
            },
            mode: None,
            ..self
        }
    }

    pub fn new() -> (r: Drag)
        ensures
            r == Drag::initial(),
            r.wf(),
    {
        Drag {
            state: SelectorState::Idle,
            selection: SelectionRect::empty(),
            mode: None,
            start: Point { x: 0, y: 0 },
        }
    }

    /// Handles a press at `p`.
    pub fn begin(self, tool: ToolKind, p: Point) -> (r: Drag)
        requires
            self.wf(),
            p.within(REACH as int),
        ensures
            r == self.begun(tool, p),
            r.wf(),
    {
        if self.state == SelectorState::Selected && tool == ToolKind::Select
            && !self.selection.is_trivial() {
            match hit_test(&self.selection, p.x, p.y) {
                Hit::Inside => Drag {
                    mode: Some(DragMode::Moving { orig: self.selection }),
                    start: p,
                    ..self
                },
                Hit::Edge(handle) => Drag {
                    mode: Some(DragMode::Resizing { handle, orig: self.selection }),
                    start: p,
                    ..self
                },
                Hit::Outside => Drag::selecting(p),
            }
        } else if tool == ToolKind::Select || self.state != SelectorState::Selected {
            Drag::selecting(p)
        } else {
            let start: Point = Point { x: p.x - self.selection.x, y: p.y - self.selection.y };
            Drag { mode: Some(DragMode::Drawing), start, ..self }
        }
    }

    /// A new selection begins at `p`.
    fn selecting(p: Point) -> (r: Drag)
        ensures
            r == (Drag {
                state: SelectorState::Selecting,
                selection: SelectionRect { x: 0, y: 0, w: 0, h: 0 },
                mode: Some(DragMode::Selection),
                start: p,
            }),
    {
        Drag {
            state: SelectorState::Selecting,
            selection: SelectionRect::empty(),
            mode: Some(DragMode::Selection),
            start: p,
        }
    }

    /// Handles a motion to `offset` from where the pointer was pressed.
    pub fn update(self, offset: Point, screen_w: i64, screen_h: i64) -> (r: Drag)
        requires
            self.wf(),
            offset.within(REACH as int),
            is_screen(screen_w, screen_h),
        ensures
            r == self.dragged(offset, screen_w, screen_h),
            r.wf(),
    {
        let selection: SelectionRect = match self.mode {
            Some(DragMode::Selection) => select_dragged(self.start, offset),
            Some(DragMode::Moving { orig }) => move_rect(&orig, offset, screen_w, screen_h),
            Some(DragMode::Resizing { handle, orig }) => {
                let px: i64 = self.start.x + offset.x;
                let py: i64 = self.start.y + offset.y;
                let r: SelectionRect = resize_rect(&orig, handle, px, py);
                trim_rect(&r, screen_w, screen_h)
            },
            Some(DragMode::Drawing) => self.selection,
            None => self.selection,
        };
        Drag { selection, ..self }
    }

    /// Handles the release.
    pub fn end(self) -> (r: Drag)
        requires
            self.wf(),
        ensures
            r == self.ended(),
            r.wf(),
    {
        match self.mode {
            Some(DragMode::Selection) => {
                let state: SelectorState = if self.selection.is_trivial() {
                    SelectorState::Idle
                } else {
                    SelectorState::Selected
                };
                Drag { state, mode: None, ..self }
            },
            _ => Drag { mode: None, ..self },
        }
    }
}

/// Only the last motion of a drag counts.
pub proof fn law_last_motion_counts(d: Drag, a: Point, b: Point, screen_w: i64, screen_h: i64)
    ensures
        d.dragged(a, screen_w, screen_h).dragged(b, screen_w, screen_h) == d.dragged(
            b,
            screen_w,
            screen_h,
        ),
{
}

/// A drag that starts over ends with the rectangle it spanned selected, or with
/// nothing selected where a side of that is shorter than three pixels.
pub proof fn law_drag_selects(
    d: Drag,
    tool: ToolKind,
    p: Point,
    offset: Point,
    screen_w: i64,
    screen_h: i64,
)
    requires
        d.wf(),
        d.starts_over(tool, p),
        p.within(REACH as int),
        offset.within(REACH as int),
    ensures
        ({
            let after = d.begun(tool, p).dragged(offset, screen_w, screen_h).ended();
            let spanned = selection::rubber_band(p, offset);
            &&& after.selection == spanned
            &&& after.state == if spanned.trivial() {
                SelectorState::Idle
            } else {
                SelectorState::Selected
            }
            &&& after.mode is None
        }),
{
}

/// Dragging a selection that lies on the screen back to where it was leaves it
/// as it was, and whatever happens to it meanwhile it keeps its size.
pub proof fn law_move_back(
    d: Drag,
    p: Point,
    offset: Point,
    screen_w: i64,
    screen_h: i64,
)
    requires
        d.wf(),
        p.within(REACH as int),
        offset.within(REACH as int),
        is_screen(screen_w, screen_h),
        d.begun(ToolKind::Select, p).mode matches Some(DragMode::Moving { .. }),
        0 <= d.selection.x,
        0 <= d.selection.y,
        d.selection.right() <= screen_w,
        d.selection.bottom() <= screen_h,
    ensures
        ({
            let begun = d.begun(ToolKind::Select, p);
            let moved = begun.dragged(offset, screen_w, screen_h);
            let back = moved.dragged(Point { x: 0, y: 0 }, screen_w, screen_h);
            &&& moved.selection.w == d.selection.w
            &&& moved.selection.h == d.selection.h
            &&& back.ended().selection == d.selection
            &&& back.ended().state == d.state
        }),
{
}

/// With the selection tool, a press inside the selection moves it, one near an
/// edge resizes it, and one elsewhere starts over.
pub proof fn law_press_decides(d: Drag, p: Point)
    requires
        d.wf(),
        d.state is Selected,
        !d.selection.trivial(),
        p.within(REACH as int),
    ensures
        selection::hit_at(d.selection, p) is Inside ==> d.begun(ToolKind::Select, p).mode == Some(
            DragMode::Moving { orig: d.selection },
        ),
        selection::hit_at(d.selection, p) matches Hit::Edge(handle) ==> d.begun(
            ToolKind::Select,
            p,
        ).mode == Some(DragMode::Resizing { handle, orig: d.selection }),
        selection::hit_at(d.selection, p) is Outside ==> d.begun(ToolKind::Select, p).mode == Some(
            DragMode::Selection,
        ),
{
}

/// Drawing leaves the selection and its state alone.
pub proof fn law_drawing_keeps_selection(
    d: Drag,
    tool: ToolKind,
    p: Point,
    offset: Point,
    screen_w: i64,
    screen_h: i64,
)
    requires
        d.draws(tool),
    ensures
        ({
            let after = d.begun(tool, p).dragged(offset, screen_w, screen_h).ended();
            after.selection == d.selection && after.state == d.state
        }),
{
}

/// Motions and releases without a press do nothing.
pub proof fn law_no_drag_no_change(d: Drag, offset: Point, screen_w: i64, screen_h: i64)
    requires
        d.wf(),
        d.mode is None,
    ensures
        d.dragged(offset, screen_w, screen_h) == d,
        d.ended() == d,
{
}

/// What a press does. Without a selection, and with the selection tool away from
/// it or on one with a side of less than three pixels, a new selection begins at
/// the pointer. With the selection tool inside a selection, that one is moved; on
/// an edge of it, that edge. With any other tool, drawing begins, at the pointer's
/// place in the selection.
pub proof fn law_press(d: Drag, tool: ToolKind, p: Point)
    requires
        d.wf(),
        p.within(REACH as int),
    ensures
        ({
            let after = d.begun(tool, p);
            let made = d.state == SelectorState::Selected;
            let grabs = made && tool == ToolKind::Select && d.selection.w >= 3072 && d.selection.h
                >= 3072;
            let hit = selection::hit_at(d.selection, p);
            &&& !made || (tool == ToolKind::Select && (!grabs || hit == Hit::Outside)) ==> {
                &&& after.state == SelectorState::Selecting
                &&& after.selection == (SelectionRect { x: 0, y: 0, w: 0, h: 0 })
                &&& after.mode == Some(DragMode::Selection)
                &&& after.start == p
            }
            &&& made && tool != ToolKind::Select ==> {
                &&& after.state == d.state
                &&& after.selection == d.selection
                &&& after.mode == Some(DragMode::Drawing)
                &&& after.start.x == p.x - d.selection.x
                &&& after.start.y == p.y - d.selection.y
            }
            &&& grabs && hit != Hit::Outside ==> {
                &&& after.state == d.state
                &&& after.selection == d.selection
                &&& after.start == p
                &&& hit == Hit::Inside ==> after.mode == Some(
                    DragMode::Moving { orig: d.selection },
                )
                &&& hit matches Hit::Edge(handle) ==> after.mode == Some(
                    DragMode::Resizing { handle, orig: d.selection },
                )
            }
        }),
{
}

/// What a motion does: a new selection spans the press and the pointer, a moved
/// one is where it was at the press plus the motion, pushed back onto the screen,
/// a resized one has the grabbed edges at the pointer, cut off at the screen. All
/// else stays as it was.
pub proof fn law_motion(d: Drag, offset: Point, screen_w: i64, screen_h: i64)
    requires
        d.wf(),
        offset.within(REACH as int),
        is_screen(screen_w, screen_h),
    ensures
        ({
            let after = d.dragged(offset, screen_w, screen_h);
            let sel = after.selection;
            &&& after.state == d.state && after.mode == d.mode && after.start == d.start
            &&& d.mode == Some(DragMode::Selection) ==> {
                &&& offset.x >= 0 ==> sel.x == d.start.x && sel.w == offset.x
                &&& offset.x <= 0 ==> sel.x == d.start.x + offset.x && sel.w == -offset.x
                &&& offset.y >= 0 ==> sel.y == d.start.y && sel.h == offset.y
                &&& offset.y <= 0 ==> sel.y == d.start.y + offset.y && sel.h == -offset.y
            }
            &&& d.mode matches Some(DragMode::Moving { orig }) ==> {
                &&& sel.w == orig.w && sel.h == orig.h
                &&& orig.x + offset.x <= 0 ==> sel.x == 0
                &&& orig.y + offset.y <= 0 ==> sel.y == 0
                &&& 0 <= orig.x + offset.x <= screen_w - orig.w ==> sel.x == orig.x + offset.x
                &&& 0 <= orig.y + offset.y <= screen_h - orig.h ==> sel.y == orig.y + offset.y
                &&& orig.x + offset.x >= screen_w - orig.w >= 0 ==> sel.x == screen_w - orig.w
                &&& orig.y + offset.y >= screen_h - orig.h >= 0 ==> sel.y == screen_h - orig.h
                &&& orig.w >= screen_w ==> sel.x == 0
                &&& orig.h >= screen_h ==> sel.y == 0
            }
            &&& d.mode matches Some(DragMode::Resizing { handle, orig }) ==> forall|p: Point|
                p.x == d.start.x + offset.x && p.y == d.start.y + offset.y ==> sel
                    == selection::trimmed(
                    #[trigger] selection::resized(orig, handle, p),
                    screen_w,
                    screen_h,
                )
            &&& d.mode == Some(DragMode::Drawing) || d.mode is None ==> sel == d.selection
        }),
{
}

/// What a release does: a new selection counts if both of its sides have three
/// pixels, and else nothing is selected. Any other drag leaves the state as it
/// was. The selection stays where it is.
pub proof fn law_release(d: Drag)
    ensures
        ({
            let after = d.ended();
            &&& after.mode is None
            &&& after.selection == d.selection
            &&& after.start == d.start
            &&& d.mode == Some(DragMode::Selection) && d.selection.w >= 3072 && d.selection.h >= 3072
                ==> after.state == SelectorState::Selected
            &&& d.mode == Some(DragMode::Selection) && (d.selection.w < 3072 || d.selection.h
                < 3072) ==> after.state == SelectorState::Idle
            &&& d.mode != Some(DragMode::Selection) ==> after.state == d.state
        }),
{
}

/// At first nothing is selected and nothing is dragged.
pub proof fn law_new_drag()
    ensures
        ({
            let d = Drag::initial();
            &&& d.state == SelectorState::Idle
            &&& d.selection == (SelectionRect { x: 0, y: 0, w: 0, h: 0 })
            &&& d.mode is None
            &&& d.start == (Point { x: 0, y: 0 })
        }),
{
}

} // verus!
