//! The selector: how pointer, keyboard and toolbar events change the selection
//! and its annotations, and what they ask of the windows.

use crate::drag::{self, Drag, DragMode, SelectorState};
use crate::history::{History, HistoryView};
use crate::image::MAX_SIDE;
use crate::selection::{self, hit_test, Handle, Hit, SelectionRect};
use crate::toolbar::{self, Request, ToolbarItem, ToolbarState};
use crate::tools::{
    self, text_command, CommandView, DrawCommand, StrokeStyle, ToolKind, DRAW_LIMIT,
};
use crate::units::{self, Point, REACH, UNIT};
use vstd::prelude::*;

verus! {

/// The cell size of a new mosaic, in pixels.
pub const MOSAIC_BLOCK: i32 = 12;

/// How long the program stays alive after a copy, so that the clipboard's
/// contents can be fetched: ten seconds.
pub const COPY_LINGER_SECS: u64 = 10;

/// The look of the magnifier.
#[derive(Debug, Clone, Copy, PartialEq, Eq, Structural)]
pub struct MagnifierConfig {
    pub radius: i64,
    /// A ratio, not a length.
    pub zoom: i64,
    pub offset_x: i64,
    pub offset_y: i64,
}

impl MagnifierConfig {
    /// A lens of sixty pixels, eighty to the right of and below the pointer,
    /// that magnifies eight times.
    pub open spec fn usual() -> MagnifierConfig {
        MagnifierConfig { radius: 61440, zoom: 8, offset_x: 81920, offset_y: 81920 }
    }
}

impl Default for MagnifierConfig {
    fn default() -> (r: MagnifierConfig)
        ensures
            r == MagnifierConfig::usual(),
    {
        MagnifierConfig { radius: 60 * UNIT, zoom: 8, offset_x: 80 * UNIT, offset_y: 80 * UNIT }
    }
}

/// How the session ends.
#[derive(Debug, Clone, Copy, PartialEq, Eq, Structural)]
pub enum Outcome {
    /// Given up.
    Cancel,
    /// The rendered selection goes to a pinned window.
    Pin,
    /// Saved or copied.
    Done,
}

/// The pointer's look.
#[derive(Debug, Clone, Copy, PartialEq, Eq, Structural)]
pub enum CursorShape {
    NwseResize,
    NeswResize,
    NsResize,
    EwResize,
    Move,
    Crosshair,
    Default,
}

impl CursorShape {
    pub open spec fn spec_name(self) -> Seq<char> {
        match self {
            CursorShape::NwseResize => "nwse-resize"@,
            CursorShape::NeswResize => "nesw-resize"@,
            CursorShape::NsResize => "ns-resize"@,
            CursorShape::EwResize => "ew-resize"@,
            CursorShape::Move => "move"@,
            CursorShape::Crosshair => "crosshair"@,
            CursorShape::Default => "default"@,
        }
    }

    /// The name that cursor themes know.
    pub fn name(self) -> (r: &'static str)
        ensures
            r@ == self.spec_name(),
    {
        match self {
            CursorShape::NwseResize => "nwse-resize",
            CursorShape::NeswResize => "nesw-resize",
            CursorShape::NsResize => "ns-resize",
            CursorShape::EwResize => "ew-resize",
            CursorShape::Move => "move",
            CursorShape::Crosshair => "crosshair",
            CursorShape::Default => "default",
        }
    }
}

/// What a pointer motion asks for.
#[derive(Debug, Clone, Copy, PartialEq, Eq, Structural)]
pub struct Motion {
    /// The new look of the pointer, if it changes.
    pub shape: Option<CursorShape>,
    /// The overlay has to be drawn again.
    pub redraw: bool,
}

/// What a release asks for.
#[derive(Debug, Clone, Copy, PartialEq, Eq, Structural)]
pub enum Release {
    Nothing,
    HideToolbar,
    /// Show the toolbar beside the selection.
    PlaceToolbar(SelectionRect),
    /// Ask for a text to put at `pos`.
    AskText { pos: Point, style: StrokeStyle },
}

/// What a key press asks for.
#[derive(Debug, Clone, Copy, PartialEq, Eq, Structural)]
pub struct KeyPress {
    pub request: Option<Request>,
    /// No one else gets to see the key.
    pub stop: bool,
}

/// What becomes of the windows.
#[derive(Debug, Clone, Copy, PartialEq, Eq, Structural)]
pub enum Effect {
    Stay,
    /// Hide them and ask where to save.
    HideAndAskPath,
    /// Bring them back.
    ShowAgain,
    /// Hide them and quit after this many seconds.
    HideAndQuitAfter(u64),
    Quit,
}

/// The model of a [`Selector`].
#[verifier::ext_equal]
pub struct SelectorView {
    pub drag: Drag,
    pub current: Option<CommandView>,
    pub history: HistoryView,
    pub toolbar: ToolbarState,
    pub cursor: Point,
    pub shape: Option<CursorShape>,
    pub screen_w: i64,
    pub screen_h: i64,
    pub magnifier: MagnifierConfig,
    pub outcome: Option<Outcome>,
}

/// The command that a press at `at` with a drawing tool begins, if it begins
/// one.
pub open spec fn first_stroke(tool: ToolKind, at: Point, style: StrokeStyle) -> Option<
    CommandView,
> {
    match tool {
        ToolKind::Rect => Some(CommandView::Rect { x: at.x, y: at.y, w: 0, h: 0, style }),
        ToolKind::Ellipse => Some(CommandView::Ellipse { x: at.x, y: at.y, w: 0, h: 0, style }),
        ToolKind::Line => Some(
            CommandView::Line { x1: at.x, y1: at.y, x2: at.x, y2: at.y, style },
        ),
        ToolKind::Arrow => Some(
            CommandView::Arrow { x1: at.x, y1: at.y, x2: at.x, y2: at.y, style },
        ),
        ToolKind::Brush => Some(CommandView::Brush { points: seq![at], style }),
        ToolKind::Mosaic => Some(
            CommandView::Mosaic { x: at.x, y: at.y, w: 0, h: 0, block: MOSAIC_BLOCK },
        ),
        ToolKind::Select => None,
        ToolKind::Text => None,
    }
}

/// The command that began at `s`, with the pointer now at `p`: boxes span the
/// two points, lines end at `p`, a brush line gets `p` as its next point.
pub open spec fn stretched(c: CommandView, s: Point, p: Point) -> CommandView {
    let span = SelectionRect::spanning(s, p);
    match c {
        CommandView::Rect { style, .. } => {
            CommandView::Rect { x: span.x, y: span.y, w: span.w, h: span.h, style }
        },
        CommandView::Ellipse { style, .. } => {
            CommandView::Ellipse { x: span.x, y: span.y, w: span.w, h: span.h, style }
        },
        CommandView::Mosaic { block, .. } => {
            CommandView::Mosaic { x: span.x, y: span.y, w: span.w, h: span.h, block }
        },
        CommandView::Line { x1, y1, style, .. } => {
            CommandView::Line { x1, y1, x2: p.x, y2: p.y, style }
        },
        CommandView::Arrow { x1, y1, style, .. } => {
            CommandView::Arrow { x1, y1, x2: p.x, y2: p.y, style }
        },
        CommandView::Brush { points, style } => CommandView::Brush { points: points.push(p), style },
        CommandView::Text { .. } => c,
    }
}

/// The look of the pointer at `p`.
pub open spec fn shape_at(d: Drag, tool: ToolKind, p: Point) -> CursorShape {
    if d.state is Selected && tool is Select {
        match selection::hit_at(d.selection, p) {
            Hit::Edge(Handle::TopLeft) => CursorShape::NwseResize,
            Hit::Edge(Handle::BottomRight) => CursorShape::NwseResize,
            Hit::Edge(Handle::TopRight) => CursorShape::NeswResize,
            Hit::Edge(Handle::BottomLeft) => CursorShape::NeswResize,
            Hit::Edge(Handle::Top) => CursorShape::NsResize,
            Hit::Edge(Handle::Bottom) => CursorShape::NsResize,
            Hit::Edge(Handle::Left) => CursorShape::EwResize,
            Hit::Edge(Handle::Right) => CursorShape::EwResize,
            Hit::Inside => CursorShape::Move,
            Hit::Outside => CursorShape::Crosshair,
        }
    } else if d.state is Selected {
        CursorShape::Default
    } else {
        CursorShape::Crosshair
    }
}

impl SelectorView {
    pub open spec fn wf(self) -> bool {
        &&& self.drag.wf()
        &&& self.history.wf()
        &&& self.current matches Some(c) ==> c.measurable()
        &&& self.toolbar.offered()
        &&& self.cursor.within(REACH as int)
        &&& drag::is_screen(self.screen_w, self.screen_h)
        &&& self.magnifier == MagnifierConfig::usual()
    }

    /// A selector for a screen of this size, before any event.
    pub open spec fn initial(screen_w: i64, screen_h: i64) -> SelectorView {
        SelectorView {
            drag: Drag::initial(),
            current: None,
            history: HistoryView::empty(),
            toolbar: ToolbarState::initial(),
            cursor: Point { x: 0, y: 0 },
            shape: None,
            screen_w,
            screen_h,
            magnifier: MagnifierConfig::usual(),
            outcome: None,
        }
    }

    /// After the pointer moved to `p`.
    pub open spec fn pointed(self, p: Point) -> SelectorView {
        SelectorView {
            cursor: p,
            shape: Some(shape_at(self.drag, self.toolbar.active_tool, p)),
            ..self
        }
    }

    /// What that asks for.
    pub open spec fn motion(self, p: Point) -> Motion {
        let shape = Some(shape_at(self.drag, self.toolbar.active_tool, p));
        Motion {
            shape: if self.shape == shape {
                None
            } else {
                shape
            },
            redraw: !(self.drag.state is Selected),
        }
    }

    /// After a press at `p`. A new selection drops all annotations; a drawing
    /// tool begins a command, placed relative to the selection.
    pub open spec fn begun(self, p: Point) -> SelectorView {
        let tool = self.toolbar.active_tool;
        let drag = self.drag.begun(tool, p);
        if self.drag.starts_over(tool, p) {
            SelectorView { drag, current: None, history: HistoryView::empty(), ..self }
        } else if self.drag.draws(tool) {
            SelectorView {
                drag,
                current: first_stroke(tool, drag.start, self.toolbar.style),
                ..self
            }
        } else {
            SelectorView { drag, ..self }
        }
    }

    /// After the pointer moved to `offset` from where it was pressed.
    pub open spec fn dragged(self, offset: Point) -> SelectorView {
        let s = self.drag.start;
        SelectorView {
            drag: self.drag.dragged(offset, self.screen_w, self.screen_h),
            current: if self.drag.mode == Some(DragMode::Drawing) && self.current is Some {
                Some(
                    stretched(
                        self.current->Some_0,
                        s,
                        Point { x: (s.x + offset.x) as i64, y: (s.y + offset.y) as i64 },
                    ),
                )
            } else {
                self.current
            },
            ..self
        }
    }

    /// After the release. A finished command is added to the history; the text
    /// tool leaves none.
    pub open spec fn ended(self) -> SelectorView {
        let drag = self.drag.ended();
        if self.drag.mode == Some(DragMode::Drawing) {
            SelectorView {
                drag,
                current: None,
                history: if self.toolbar.active_tool is Text || self.current is None {
                    self.history
                } else {
                    self.history.committed(self.current->Some_0)
                },
                ..self
            }
        } else {
            SelectorView { drag, ..self }
        }
    }

    /// With the way the session ends decided.
    pub open spec fn concluded(self, outcome: Outcome) -> SelectorView {
        SelectorView { outcome: Some(outcome), ..self }
    }

    /// What the release asks for.
    pub open spec fn release(self) -> Release {
        match self.drag.mode {
            Some(DragMode::Selection) => if self.drag.selection.trivial() {
                Release::HideToolbar
            } else {
                Release::PlaceToolbar(self.drag.selection)
            },
            Some(DragMode::Drawing) => if self.toolbar.active_tool is Text {
                Release::AskText { pos: self.drag.start, style: self.toolbar.style }
            } else {
                Release::Nothing
            },
            Some(_) => if self.drag.selection.trivial() {
                Release::Nothing
            } else {
                Release::PlaceToolbar(self.drag.selection)
            },
            None => Release::Nothing,
        }
    }
}

/// Begins the command of a press.
fn start_command(tool: ToolKind, at: Point, style: StrokeStyle) -> (r: Option<DrawCommand>)
    ensures
        first_stroke(tool, at, style) is None <==> r is None,
        r matches Some(c) ==> Some(c@) == first_stroke(tool, at, style),
{
    match tool {
        ToolKind::Rect => Some(DrawCommand::Rect { x: at.x, y: at.y, w: 0, h: 0, style }),
        ToolKind::Ellipse => Some(DrawCommand::Ellipse { x: at.x, y: at.y, w: 0, h: 0, style }),
        ToolKind::Line => Some(
            DrawCommand::Line { x1: at.x, y1: at.y, x2: at.x, y2: at.y, style },
        ),
        ToolKind::Arrow => Some(
            DrawCommand::Arrow { x1: at.x, y1: at.y, x2: at.x, y2: at.y, style },
        ),
        ToolKind::Brush => {
            let points: Vec<Point> = vec![at];
            assert(points@ =~= seq![at]);
            Some(DrawCommand::Brush { points, style })
        },
        ToolKind::Mosaic => Some(
            DrawCommand::Mosaic { x: at.x, y: at.y, w: 0, h: 0, block: MOSAIC_BLOCK },
        ),
        ToolKind::Select => None,
        ToolKind::Text => None,
    }
}

/// Stretches a command to the pointer.
fn stretch(c: DrawCommand, s: Point, p: Point) -> (r: DrawCommand)
    requires
        s.within(3 * REACH),
        p.within(4 * REACH),
    ensures
        r@ == stretched(c@, s, p),
        c.measurable() ==> r.measurable(),
{
    let span: SelectionRect = SelectionRect::between(s, p);
    match c {
        DrawCommand::Rect { style, .. } => {
            DrawCommand::Rect { x: span.x, y: span.y, w: span.w, h: span.h, style }
        },
        DrawCommand::Ellipse { style, .. } => {
            DrawCommand::Ellipse { x: span.x, y: span.y, w: span.w, h: span.h, style }
        },
        DrawCommand::Mosaic { block, .. } => {
            DrawCommand::Mosaic { x: span.x, y: span.y, w: span.w, h: span.h, block }
        },
        DrawCommand::Line { x1, y1, style, .. } => {
            DrawCommand::Line { x1, y1, x2: p.x, y2: p.y, style }
        },
        DrawCommand::Arrow { x1, y1, style, .. } => {
            DrawCommand::Arrow { x1, y1, x2: p.x, y2: p.y, style }
        },
        DrawCommand::Brush { points, style } => {
            let mut points: Vec<Point> = points;
            points.push(p);
            DrawCommand::Brush { points, style }
        },
        DrawCommand::Text { x, y, text, size, color } => {
            DrawCommand::Text { x, y, text, size, color }
        },
    }
}

/// Chooses the look of the pointer.
fn choose_shape(d: &Drag, tool: ToolKind, p: Point) -> (r: CursorShape)
    requires
        d.wf(),
        p.within(REACH as int),
    ensures
        r == shape_at(*d, tool, p),
{
    if d.state == SelectorState::Selected && tool == ToolKind::Select {
        match hit_test(&d.selection, p.x, p.y) {
            Hit::Edge(Handle::TopLeft) => CursorShape::NwseResize,
            Hit::Edge(Handle::BottomRight) => CursorShape::NwseResize,
            Hit::Edge(Handle::TopRight) => CursorShape::NeswResize,
            Hit::Edge(Handle::BottomLeft) => CursorShape::NeswResize,
            Hit::Edge(Handle::Top) => CursorShape::NsResize,
            Hit::Edge(Handle::Bottom) => CursorShape::NsResize,
            Hit::Edge(Handle::Left) => CursorShape::EwResize,
            Hit::Edge(Handle::Right) => CursorShape::EwResize,
            Hit::Inside => CursorShape::Move,
            Hit::Outside => CursorShape::Crosshair,
        }
    } else if d.state == SelectorState::Selected {
        CursorShape::Default
    } else {
        CursorShape::Crosshair
    }
}

/// The state of a selection session.
#[derive(Debug)]
pub struct Selector {
    drag: Drag,
    current: Option<DrawCommand>,
    history: History,
    toolbar: ToolbarState,
    cursor: Point,
    shape: Option<CursorShape>,
    screen_w: i64,
    screen_h: i64,
    magnifier: MagnifierConfig,
    outcome: Option<Outcome>,
}

impl View for Selector {
    type V = SelectorView;

    closed spec fn view(&self) -> SelectorView {
        SelectorView {
            drag: self.drag,
            current: match self.current {
                Some(c) => Some(c@),
                None => None,
            },
            history: self.history@,
            toolbar: self.toolbar,
            cursor: self.cursor,
            shape: self.shape,
            screen_w: self.screen_w,
            screen_h: self.screen_h,
            magnifier: self.magnifier,
            outcome: self.outcome,
        }
    }
}

impl Selector {
    #[verifier::type_invariant]
    spec fn inv(self) -> bool {
        &&& self.drag.wf()
        &&& self.current matches Some(c) ==> c.measurable()
        &&& self.toolbar.offered()
        &&& self.cursor.within(REACH as int)
        &&& drag::is_screen(self.screen_w, self.screen_h)
        &&& self.magnifier == MagnifierConfig::usual()
    }

    /// A selector for a capture of this size in pixels.
    pub fn new(width: i32, height: i32) -> (r: Selector)
        requires
            0 <= width <= MAX_SIDE,
            0 <= height <= MAX_SIDE,
        ensures
            r@ == SelectorView::initial((width * UNIT) as i64, (height * UNIT) as i64),
            r@.wf(),
    {
        assert(ToolbarState::initial().style.color == toolbar::Swatch::Red.color());
        assert(ToolbarState::initial().style.width == toolbar::Thickness::Four.width());
        Selector {
            drag: Drag::new(),
            current: None,
            history: History::new(),
            toolbar: ToolbarState::default(),
            cursor: Point { x: 0, y: 0 },
            shape: None,
            screen_w: width as i64 * UNIT,
            screen_h: height as i64 * UNIT,
            magnifier: MagnifierConfig::default(),
            outcome: None,
        }
    }

    /// The pointer moved to `p`.
    pub fn pointer_moved(&mut self, p: Point) -> (r: Motion)
        requires
            p.within(REACH as int),
        ensures
            final(self)@ == old(self)@.pointed(p),
            r == old(self)@.motion(p),
    {
        proof {
            use_type_invariant(&*self);
        }
        let shape: Option<CursorShape> = Some(
            choose_shape(&self.drag, self.toolbar.active_tool, p),
        );
        let changed: bool = self.shape != shape;
        self.cursor = p;
        self.shape = shape;
        Motion {
            shape: if changed {
                shape
            } else {
                None
            },
            redraw: self.drag.state != SelectorState::Selected,
        }
    }

    /// The pointer was pressed at `p`.
    pub fn drag_begin(&mut self, p: Point)
        requires
            p.within(REACH as int),
        ensures
            final(self)@ == old(self)@.begun(p),
    {
        proof {
            use_type_invariant(&*self);
        }
        let tool: ToolKind = self.toolbar.active_tool;
        let drag: Drag = self.drag.begin(tool, p);
        self.drag = drag;
        match drag.mode {
            Some(DragMode::Selection) => {
                self.current = None;
                self.history = History::new();
            },
            Some(DragMode::Drawing) => {
                self.current = start_command(tool, drag.start, self.toolbar.style);
            },
            _ => {},
        }
    }

    /// The pointer moved to `offset` from where it was pressed.
    pub fn drag_update(&mut self, offset: Point)
        requires
            offset.within(REACH as int),
        ensures
            final(self)@ == old(self)@.dragged(offset),
    {
        proof {
            use_type_invariant(&*self);
        }
        let drag: Drag = self.drag;
        self.drag = drag.update(offset, self.screen_w, self.screen_h);
        if drag.mode == Some(DragMode::Drawing) {
            let mut current: Option<DrawCommand> = None;
            std::mem::swap(&mut current, &mut self.current);
            if let Some(c) = current {
                let p: Point = Point { x: drag.start.x + offset.x, y: drag.start.y + offset.y };
                self.current = Some(stretch(c, drag.start, p));
            }
        }
    }

    /// The pointer was released.
    pub fn drag_end(&mut self) -> (r: Release)
        ensures
            final(self)@ == old(self)@.ended(),
            r == old(self)@.release(),
            r matches Release::PlaceToolbar(sel) ==> drag::reachable(sel),
            r matches Release::AskText { pos, style } ==> pos.within(DRAW_LIMIT as int) && 0
                <= style.width <= DRAW_LIMIT,
    {
        proof {
            use_type_invariant(&*self);
        }
        let drag: Drag = self.drag;
        self.drag = drag.end();
        match drag.mode {
            Some(DragMode::Selection) => {
                if drag.selection.is_trivial() {
                    Release::HideToolbar
                } else {
                    Release::PlaceToolbar(drag.selection)
                }
            },
            Some(DragMode::Drawing) => {
                let mut current: Option<DrawCommand> = None;
                std::mem::swap(&mut current, &mut self.current);
                if self.toolbar.active_tool == ToolKind::Text {
                    Release::AskText { pos: drag.start, style: self.toolbar.style }
                } else {
                    if let Some(c) = current {
                        self.add(c);
                    }
                    Release::Nothing
                }
            },
            Some(_) => {
                if drag.selection.is_trivial() {
                    Release::Nothing
                } else {
                    Release::PlaceToolbar(drag.selection)
                }
            },
            None => Release::Nothing,
        }
    }

    /// Adds a command to the history.
    fn add(&mut self, c: DrawCommand)
        requires
            c.measurable(),
        ensures
            final(self)@ == (SelectorView {
                history: old(self)@.history.committed(c@),
                ..old(self)@
            }),
    {
        proof {
            use_type_invariant(&*self);
        }
        let mut history: History = History::new();
        std::mem::swap(&mut history, &mut self.history);
        history.commit(c);
        self.history = history;
    }

    /// A text was entered for the place `pos`. An empty one is dropped.
    pub fn text_entered(&mut self, pos: Point, style: StrokeStyle, text: String)
        requires
            pos.within(DRAW_LIMIT as int),
            -DRAW_LIMIT <= style.width <= DRAW_LIMIT,
        ensures
            final(self)@ == (SelectorView {
                history: old(self)@.history.committed(tools::text_view(pos, style, text@)),
                ..old(self)@
            }),
    {
        if let Some(c) = text_command(pos, style, text) {
            self.add(c);
        }
    }

    /// An item of the toolbar was clicked. A button's request is handed back.
    pub fn click(&mut self, item: ToolbarItem) -> (r: Option<Request>)
        ensures
            final(self)@ == (SelectorView {
                toolbar: old(self)@.toolbar.clicked(item),
                ..old(self)@
            }),
            r == (match item {
                ToolbarItem::Button(request) => Some(request),
                _ => None,
            }),
    {
        proof {
            use_type_invariant(&*self);
            toolbar::law_style_stays_offered(self.toolbar, item);
        }
        let mut toolbar: ToolbarState = self.toolbar;
        let r: Option<Request> = toolbar.click(item);
        self.toolbar = toolbar;
        r
    }

    /// Takes the last annotation back. Tells whether there was one.
    pub fn undo(&mut self) -> (changed: bool)
        ensures
            changed == (old(self)@.history.done.len() > 0),
            final(self)@ == (SelectorView {
                history: old(self)@.history.undone_last(),
                ..old(self)@
            }),
    {
        proof {
            use_type_invariant(&*self);
        }
        let mut history: History = History::new();
        std::mem::swap(&mut history, &mut self.history);
        let changed: bool = history.undo();
        self.history = history;
        changed
    }

    /// Puts the annotation last taken back in place again. Tells whether there
    /// was one.
    pub fn redo(&mut self) -> (changed: bool)
        ensures
            changed == (old(self)@.history.undone.len() > 0),
            final(self)@ == (SelectorView {
                history: old(self)@.history.redone_last(),
                ..old(self)@
            }),
    {
        proof {
            use_type_invariant(&*self);
        }
        let mut history: History = History::new();
        std::mem::swap(&mut history, &mut self.history);
        let changed: bool = history.redo();
        self.history = history;
        changed
    }

    /// Saving was asked for; `rendered` tells whether the selection could be
    /// rendered.
    pub fn begin_save(&self, rendered: bool) -> (r: Effect)
        ensures
            r == if rendered {
                Effect::HideAndAskPath
            } else {
                Effect::Stay
            },
    {
        if rendered {
            Effect::HideAndAskPath
        } else {
            Effect::Stay
        }
    }

    /// The file was written, or not: no path was chosen or writing failed. Only a
    /// written file ends the session.
    pub fn finish_save(&mut self, written: bool) -> (r: Effect)
        ensures
            written ==> r == Effect::Quit && final(self)@ == old(self)@.concluded(Outcome::Done),
            !written ==> r == Effect::ShowAgain && final(self)@ == old(self)@,
    {
        proof {
            use_type_invariant(&*self);
        }
        if written {
            self.outcome = Some(Outcome::Done);
            Effect::Quit
        } else {
            Effect::ShowAgain
        }
    }

    /// The selection was copied, or copying failed: the session ends either way,
    /// after a while.
    pub fn copy(&mut self) -> (r: Effect)
        ensures
            r == Effect::HideAndQuitAfter(COPY_LINGER_SECS),
            final(self)@ == old(self)@.concluded(Outcome::Done),
    {
        proof {
            use_type_invariant(&*self);
        }
        self.outcome = Some(Outcome::Done);
        Effect::HideAndQuitAfter(COPY_LINGER_SECS)
    }

    /// Pinning was asked for; `rendered` tells whether the selection could be
    /// rendered. The session ends either way.
    pub fn pin(&mut self, rendered: bool) -> (r: Effect)
        ensures
            r == Effect::Quit,
            rendered ==> final(self)@ == old(self)@.concluded(Outcome::Pin),
            !rendered ==> final(self)@ == old(self)@,
    {
        proof {
            use_type_invariant(&*self);
        }
        if rendered {
            self.outcome = Some(Outcome::Pin);
        }
        Effect::Quit
    }

    /// The session was given up.
    pub fn exit(&mut self) -> (r: Effect)
        ensures
            r == Effect::Quit,
            final(self)@ == old(self)@.concluded(Outcome::Cancel),
    {
        proof {
            use_type_invariant(&*self);
        }
        self.outcome = Some(Outcome::Cancel);
        Effect::Quit
    }

    /// Whether the session's result is the rendered selection, to be pinned.
    pub fn is_pinned(&self) -> (r: bool)
        ensures
            r == (self@.outcome == Some(Outcome::Pin)),
    {
        self.outcome == Some(Outcome::Pin)
    }

    pub fn drag(&self) -> (r: Drag)
        ensures
            r == self@.drag,
            r.wf(),
    {
        proof {
            use_type_invariant(self);
        }
        self.drag
    }

    pub fn selection(&self) -> (r: SelectionRect)
        ensures
            r == self@.drag.selection,
            drag::reachable(r),
    {
        proof {
            use_type_invariant(self);
        }
        self.drag.selection
    }

    pub fn cursor(&self) -> (r: Point)
        ensures
            r == self@.cursor,
            r.within(REACH as int),
    {
        proof {
            use_type_invariant(self);
        }
        self.cursor
    }

    pub fn toolbar(&self) -> (r: ToolbarState)
        ensures
            r == self@.toolbar,
            r.offered(),
    {
        proof {
            use_type_invariant(self);
        }
        self.toolbar
    }

    pub fn magnifier(&self) -> (r: MagnifierConfig)
        ensures
            r == self@.magnifier,
            r == MagnifierConfig::usual(),
    {
        proof {
            use_type_invariant(self);
        }
        self.magnifier
    }

    /// The committed annotations, oldest first.
    pub fn commands(&self) -> (r: &[DrawCommand])
        ensures
            tools::command_views(r@) == self@.history.done,
            forall|i: int| 0 <= i < r@.len() ==> (#[trigger] r@[i]).measurable(),
    {
        self.history.commands()
    }

    /// The annotation being drawn.
    pub fn current(&self) -> (r: Option<&DrawCommand>)
        ensures
            r is None <==> self@.current is None,
            r matches Some(c) ==> Some(c@) == self@.current && c.measurable(),
    {
        proof {
            use_type_invariant(self);
        }
        self.current.as_ref()
    }
}

/// Bundles requests to draw: of all that come before the drawing is done, only
/// the first one has it scheduled.
#[derive(Debug)]
pub struct RedrawGate {
    pending: bool,
}

impl RedrawGate {
    /// A drawing is scheduled and not yet done.
    pub closed spec fn is_pending(self) -> bool {
        self.pending
    }

    pub fn new() -> (r: RedrawGate)
        ensures
            !r.is_pending(),
    {
        RedrawGate { pending: false }
    }

    /// Asks for a drawing. Tells whether it has to be scheduled.
    pub fn request(&mut self) -> (schedule: bool)
        ensures
            schedule == !old(self).is_pending(),
            final(self).is_pending(),
    {
        let schedule: bool = !self.pending;
        self.pending = true;
        schedule
    }

    /// The scheduled drawing is about to be done.
    pub fn drain(&mut self)
        ensures
            !final(self).is_pending(),
    {
        self.pending = false;
    }
}

/// Key codes, as in the X keysym tables.
pub const KEY_ESCAPE: u32 = 0xff1b;

pub const KEY_UPPER_C: u32 = 0x43;

pub const KEY_LOWER_C: u32 = 0x63;

pub const KEY_UPPER_S: u32 = 0x53;

pub const KEY_LOWER_S: u32 = 0x73;

pub const KEY_UPPER_P: u32 = 0x50;

pub const KEY_LOWER_P: u32 = 0x70;

/// What a key asks for: Ctrl with C, S or P copies, saves or pins, and the key
/// goes no further; Escape without Ctrl exits.
pub open spec fn key_meaning(key: u32, ctrl: bool) -> KeyPress {
    if ctrl && (key == KEY_UPPER_C || key == KEY_LOWER_C) {
        KeyPress { request: Some(Request::Copy), stop: true }
    } else if ctrl && (key == KEY_UPPER_S || key == KEY_LOWER_S) {
        KeyPress { request: Some(Request::Save), stop: true }
    } else if ctrl && (key == KEY_UPPER_P || key == KEY_LOWER_P) {
        KeyPress { request: Some(Request::Pin), stop: true }
    } else if !ctrl && key == KEY_ESCAPE {
        KeyPress { request: Some(Request::Exit), stop: false }
    } else {
        KeyPress { request: None, stop: false }
    }
}

/// Decides what a key press asks for.
pub fn key_pressed(key: u32, ctrl: bool) -> (r: KeyPress)
    ensures
        r == key_meaning(key, ctrl),
{
    if ctrl {
        if key == KEY_LOWER_C || key == KEY_UPPER_C {
            KeyPress { request: Some(Request::Copy), stop: true }
        } else if key == KEY_LOWER_S || key == KEY_UPPER_S {
            KeyPress { request: Some(Request::Save), stop: true }
        } else if key == KEY_LOWER_P || key == KEY_UPPER_P {
            KeyPress { request: Some(Request::Pin), stop: true }
        } else {
            KeyPress { request: None, stop: false }
        }
    } else if key == KEY_ESCAPE {
        KeyPress { request: Some(Request::Exit), stop: false }
    } else {
        KeyPress { request: None, stop: false }
    }
}

/// Every event leads from a sound session to a sound session.
pub proof fn law_sessions_stay_sound(v: SelectorView, p: Point, item: ToolbarItem)
    requires
        v.wf(),
        p.within(REACH as int),
    ensures
        v.pointed(p).wf(),
        v.begun(p).wf(),
        v.dragged(p).wf(),
        v.ended().wf(),
        (SelectorView { toolbar: v.toolbar.clicked(item), ..v }).wf(),
        (SelectorView { history: v.history.undone_last(), ..v }).wf(),
        (SelectorView { history: v.history.redone_last(), ..v }).wf(),
{
    toolbar::law_style_stays_offered(v.toolbar, item);
    if v.current is Some {
        let c = v.current->Some_0;
        let s = v.drag.start;
        let q = Point { x: (s.x + p.x) as i64, y: (s.y + p.y) as i64 };
        assert(stretched(c, s, q).measurable());
    }
}

/// A new selection starts without annotations, and with nothing to redo.
pub proof fn law_new_selection_drops_annotations(v: SelectorView, p: Point)
    requires
        v.drag.starts_over(v.toolbar.active_tool, p),
    ensures
        v.begun(p).history == HistoryView::empty(),
        v.begun(p).current is None,
{
}

/// Moving or resizing the selection keeps its annotations.
pub proof fn law_adjusting_keeps_annotations(v: SelectorView, p: Point, offset: Point)
    requires
        v.wf(),
        !v.drag.starts_over(v.toolbar.active_tool, p),
        v.toolbar.active_tool is Select,
    ensures
        v.begun(p).dragged(offset).ended().history == v.history,
{
}

/// A drawn box, dragged from `p` by `offset`, is committed as the rectangle
/// between the two points, relative to the selection; a smaller one than three
/// pixels either way leaves no trace.
pub proof fn law_drawn_box(v: SelectorView, p: Point, offset: Point)
    requires
        v.wf(),
        v.drag.state is Selected,
        v.toolbar.active_tool is Rect,
        p.within(REACH as int),
        offset.within(REACH as int),
    ensures
        ({
            let after = v.begun(p).dragged(offset).ended();
            let box_ = CommandView::Rect {
                x: (units::least(p.x as int, p.x + offset.x) - v.drag.selection.x) as i64,
                y: (units::least(p.y as int, p.y + offset.y) - v.drag.selection.y) as i64,
                w: units::magnitude(offset.x as int) as i64,
                h: units::magnitude(offset.y as int) as i64,
                style: v.toolbar.style,
            };
            &&& after.current is None
            &&& after.drag.selection == v.drag.selection
            &&& box_.trivial() ==> after.history == v.history
            &&& !box_.trivial() ==> after.history.done == v.history.done.push(box_)
            &&& !box_.trivial() ==> after.history.undone.len() == 0
        }),
{
}

/// A line or an arrow goes from the press to where the pointer was last,
/// relative to the selection.
pub proof fn law_drawn_line(v: SelectorView, p: Point, a: Point, b: Point)
    requires
        v.wf(),
        v.drag.state is Selected,
        v.toolbar.active_tool is Line || v.toolbar.active_tool is Arrow,
        p.within(REACH as int),
        a.within(REACH as int),
        b.within(REACH as int),
    ensures
        ({
            let x1 = (p.x - v.drag.selection.x) as i64;
            let y1 = (p.y - v.drag.selection.y) as i64;
            let x2 = (p.x + b.x - v.drag.selection.x) as i64;
            let y2 = (p.y + b.y - v.drag.selection.y) as i64;
            let style = v.toolbar.style;
            v.begun(p).dragged(a).dragged(b).current == Some(
                if v.toolbar.active_tool is Line {
                    CommandView::Line { x1, y1, x2, y2, style }
                } else {
                    CommandView::Arrow { x1, y1, x2, y2, style }
                },
            )
        }),
{
}

/// A brush line goes through the press and through every motion, relative to the
/// selection.
pub proof fn law_drawn_brush(v: SelectorView, p: Point, a: Point, b: Point)
    requires
        v.wf(),
        v.drag.state is Selected,
        v.toolbar.active_tool is Brush,
        p.within(REACH as int),
        a.within(REACH as int),
        b.within(REACH as int),
    ensures
        ({
            let q = v.begun(p).drag.start;
            let points = seq![
                q,
                Point { x: (q.x + a.x) as i64, y: (q.y + a.y) as i64 },
                Point { x: (q.x + b.x) as i64, y: (q.y + b.y) as i64 },
            ];
            &&& q.x == p.x - v.drag.selection.x
            &&& q.y == p.y - v.drag.selection.y
            &&& v.begun(p).dragged(a).dragged(b).current == Some(
                CommandView::Brush { points, style: v.toolbar.style },
            )
        }),
{
    let q = v.begun(p).drag.start;
    let qa = Point { x: (q.x + a.x) as i64, y: (q.y + a.y) as i64 };
    let qb = Point { x: (q.x + b.x) as i64, y: (q.y + b.y) as i64 };
    assert(seq![q].push(qa).push(qb) =~= seq![q, qa, qb]);
}

/// A session in which nothing is pressed and nothing is being drawn is in such a
/// state again after every drag.
pub proof fn law_sessions_come_to_rest(v: SelectorView, p: Point, offset: Point)
    requires
        v.wf(),
        v.drag.mode is None,
        v.current is None,
        p.within(REACH as int),
        offset.within(REACH as int),
    ensures
        v.begun(p).dragged(offset).ended().drag.mode is None,
        v.begun(p).dragged(offset).ended().current is None,
{
}

/// A release ends every drag, and with it the annotation being drawn, if the
/// drag was drawing one.
pub proof fn law_release_ends_drag(v: SelectorView)
    ensures
        v.ended().drag.mode is None,
        v.drag.mode == Some(DragMode::Drawing) ==> v.ended().current is None,
        v.ended().ended() == v.ended(),
        v.ended().release() is Nothing,
{
}

/// The toolbar is only ever shown beside a selection that is there to stay.
pub proof fn law_toolbar_needs_selection(v: SelectorView)
    requires
        v.wf(),
    ensures
        v.release() matches Release::PlaceToolbar(sel) ==> {
            &&& sel == v.ended().drag.selection
            &&& !sel.trivial()
            &&& v.ended().drag.state is Selected
        },
        v.release() is HideToolbar ==> v.ended().drag.state is Idle,
{
}

/// Of the ways to end a session only pinning gives an image, and the last one
/// chosen counts.
pub proof fn law_only_pinning_gives_an_image(v: SelectorView, outcome: Outcome)
    ensures
        v.concluded(outcome).outcome == Some(Outcome::Pin) <==> outcome is Pin,
        v.concluded(outcome).history == v.history,
        v.concluded(outcome).drag == v.drag,
{
}

/// An empty text leaves the annotations, and those that can be redone, alone.
pub proof fn law_empty_text_is_dropped(h: HistoryView, pos: Point, style: StrokeStyle)
    ensures
        h.committed(tools::text_view(pos, style, seq![])) == h,
{
}

/// The box between where the pointer was pressed, at `p`, and where it was last,
/// `offset` away, as seen from the selection's corner.
pub open spec fn is_drawn_box(
    sel: SelectionRect,
    p: Point,
    offset: Point,
    x: i64,
    y: i64,
    w: i64,
    h: i64,
) -> bool {
    &&& offset.x >= 0 ==> sel.x + x == p.x && w == offset.x
    &&& offset.x <= 0 ==> sel.x + x == p.x + offset.x && w == -offset.x
    &&& offset.y >= 0 ==> sel.y + y == p.y && h == offset.y
    &&& offset.y <= 0 ==> sel.y + y == p.y + offset.y && h == -offset.y
}

/// With the rectangle, ellipse and mosaic tools, a drag draws the box between press
/// and pointer, whichever way it went: what was dragged over, as seen from the
/// selection's corner. Rectangles and ellipses have the chosen style, mosaics cells
/// of twelve pixels.
pub proof fn law_boxes_cover_the_drag(v: SelectorView, p: Point, a: Point, offset: Point)
    requires
        v.wf(),
        v.drag.state is Selected,
        v.toolbar.active_tool is Rect || v.toolbar.active_tool is Ellipse || v.toolbar.active_tool
            is Mosaic,
        p.within(REACH as int),
        a.within(REACH as int),
        offset.within(REACH as int),
    ensures
        ({
            let sel = v.drag.selection;
            let drawn = v.begun(p).dragged(a).dragged(offset).current;
            &&& v.toolbar.active_tool == ToolKind::Rect ==> (drawn matches Some(
                CommandView::Rect { x, y, w, h, style },
            ) && is_drawn_box(sel, p, offset, x, y, w, h) && style == v.toolbar.style)
            &&& v.toolbar.active_tool == ToolKind::Ellipse ==> (drawn matches Some(
                CommandView::Ellipse { x, y, w, h, style },
            ) && is_drawn_box(sel, p, offset, x, y, w, h) && style == v.toolbar.style)
            &&& v.toolbar.active_tool == ToolKind::Mosaic ==> (drawn matches Some(
                CommandView::Mosaic { x, y, w, h, block },
            ) && is_drawn_box(sel, p, offset, x, y, w, h) && block == 12)
        }),
{
    let s = v.begun(p).drag.start;
    let q = Point { x: (s.x + offset.x) as i64, y: (s.y + offset.y) as i64 };
    selection::law_spanning_is_tight(s, q);
}

/// With the line and arrow tools, a drag draws the line from the press to where the
/// pointer was last, as seen from the selection's corner, in the chosen style.
pub proof fn law_lines_follow_the_drag(v: SelectorView, p: Point, a: Point, offset: Point)
    requires
        v.wf(),
        v.drag.state is Selected,
        v.toolbar.active_tool is Line || v.toolbar.active_tool is Arrow,
        p.within(REACH as int),
        a.within(REACH as int),
        offset.within(REACH as int),
    ensures
        ({
            let sel = v.drag.selection;
            let drawn = v.begun(p).dragged(a).dragged(offset).current;
            &&& v.toolbar.active_tool == ToolKind::Line ==> (drawn matches Some(
                CommandView::Line { x1, y1, x2, y2, style },
            ) && sel.x + x1 == p.x && sel.y + y1 == p.y && x2 - x1 == offset.x && y2 - y1
                == offset.y && style == v.toolbar.style)
            &&& v.toolbar.active_tool == ToolKind::Arrow ==> (drawn matches Some(
                CommandView::Arrow { x1, y1, x2, y2, style },
            ) && sel.x + x1 == p.x && sel.y + y1 == p.y && x2 - x1 == offset.x && y2 - y1
                == offset.y && style == v.toolbar.style)
        }),
{
}

/// With the brush, every motion adds the place of the pointer, as seen from the
/// selection's corner, behind the points that were there.
pub proof fn law_brush_follows_the_drag(v: SelectorView, p: Point, offset: Point)
    requires
        v.wf(),
        p.within(REACH as int),
        offset.within(REACH as int),
    ensures
        v.drag.state is Selected && v.toolbar.active_tool == ToolKind::Brush ==> (v.begun(
            p,
        ).current matches Some(CommandView::Brush { points, style }) && points.len() == 1
            && v.drag.selection.x + points[0].x == p.x && v.drag.selection.y + points[0].y == p.y
            && style == v.toolbar.style),
        v.drag.mode == Some(DragMode::Drawing) ==> (v.current matches Some(
            CommandView::Brush { points: before, style: brush },
        ) ==> (v.dragged(offset).current matches Some(CommandView::Brush { points, style })
            && points.len() == before.len() + 1 && points.last().x == v.drag.start.x + offset.x
            && points.last().y == v.drag.start.y + offset.y && points.drop_last() == before && style
            == brush)),
{
    if v.drag.mode == Some(DragMode::Drawing) {
        if let Some(CommandView::Brush { points: before, style: brush }) = v.current {
            if let Some(CommandView::Brush { points, style }) = v.dragged(offset).current {
                assert(points.drop_last() =~= before);
            }
        }
    }
}

/// What was drawn is added to the annotations when the pointer is released, as it
/// was last shown, if it is worth keeping.
pub proof fn law_release_commits(v: SelectorView)
    ensures
        v.drag.mode == Some(DragMode::Drawing) && v.toolbar.active_tool != ToolKind::Text ==> (
        v.current matches Some(c) ==> {
            &&& !c.trivial() ==> v.ended().history.done == v.history.done.push(c)
                && v.ended().history.undone.len() == 0
            &&& c.trivial() ==> v.ended().history == v.history
        }),
        v.current is None || v.drag.mode != Some(DragMode::Drawing) || v.toolbar.active_tool
            == ToolKind::Text ==> v.ended().history == v.history,
        v.drag.mode != Some(DragMode::Drawing) ==> v.ended().current == v.current,
{
}

/// The text tool draws nothing while it is dragged; the release asks for a text at
/// the place of the press, as seen from the selection's corner.
pub proof fn law_text_tool_asks(v: SelectorView, p: Point, offset: Point)
    requires
        v.wf(),
        v.drag.state is Selected,
        v.toolbar.active_tool == ToolKind::Text,
        p.within(REACH as int),
        offset.within(REACH as int),
    ensures
        ({
            let held = v.begun(p).dragged(offset);
            &&& held.current is None
            &&& held.release() matches Release::AskText { pos, style } && v.drag.selection.x + pos.x
                == p.x && v.drag.selection.y + pos.y == p.y && style == v.toolbar.style
            &&& held.ended().history == v.history
        }),
{
}

/// What a release asks for: beside a selection that was dragged out, moved or
/// resized to three pixels or more both ways the toolbar is shown; one that was
/// dragged out smaller has it hidden.
pub proof fn law_release_asks(v: SelectorView)
    ensures
        ({
            let sel = v.drag.selection;
            let small = sel.w < 3072 || sel.h < 3072;
            &&& v.drag.mode == Some(DragMode::Selection) && small ==> v.release()
                == Release::HideToolbar
            &&& (v.drag.mode == Some(DragMode::Selection) || v.drag.mode matches Some(
                DragMode::Moving { .. },
            ) || v.drag.mode matches Some(DragMode::Resizing { .. })) && !small ==> v.release()
                == Release::PlaceToolbar(sel)
            &&& (v.drag.mode matches Some(DragMode::Moving { .. }) || v.drag.mode matches Some(
                DragMode::Resizing { .. },
            )) && small ==> v.release() == Release::Nothing
            &&& v.drag.mode is None ==> v.release() == Release::Nothing
            &&& v.drag.mode == Some(DragMode::Drawing) && v.toolbar.active_tool != ToolKind::Text
                ==> v.release() == Release::Nothing
        }),
{
}

/// Two sessions agree in all but the drag, the annotation that is drawn and the
/// annotations made.
pub open spec fn alike_otherwise(a: SelectorView, b: SelectorView) -> bool {
    &&& a.toolbar == b.toolbar
    &&& a.cursor == b.cursor
    &&& a.shape == b.shape
    &&& a.screen_w == b.screen_w
    &&& a.screen_h == b.screen_h
    &&& a.magnifier == b.magnifier
    &&& a.outcome == b.outcome
}

/// Presses, motions and releases change nothing but the drag, the annotation that
/// is drawn and the annotations made.
pub proof fn law_drags_touch_nothing_else(v: SelectorView, p: Point)
    ensures
        alike_otherwise(v.begun(p), v),
        alike_otherwise(v.dragged(p), v),
        alike_otherwise(v.ended(), v),
        v.dragged(p).history == v.history,
        v.begun(p).drag == v.drag.begun(v.toolbar.active_tool, p),
        v.dragged(p).drag == v.drag.dragged(p, v.screen_w, v.screen_h),
        v.ended().drag == v.drag.ended(),
{
}

/// With a selection and the selection tool, the pointer shows what a press would
/// do: an arrow across each edge, a diagonal one at each corner, a move inside and a
/// crosshair outside. Before there is a selection it is a crosshair, and with
/// another tool the default.
pub proof fn law_pointer_shows_what_it_does(d: Drag, tool: ToolKind, p: Point)
    ensures
        ({
            let look = shape_at(d, tool, p);
            let hit = selection::hit_at(d.selection, p);
            let grabs = d.state == SelectorState::Selected && tool == ToolKind::Select;
            &&& d.state != SelectorState::Selected ==> look == CursorShape::Crosshair
            &&& d.state == SelectorState::Selected && tool != ToolKind::Select ==> look
                == CursorShape::Default
            &&& grabs && (hit == Hit::Edge(Handle::TopLeft) || hit == Hit::Edge(
                Handle::BottomRight,
            )) ==> look == CursorShape::NwseResize
            &&& grabs && (hit == Hit::Edge(Handle::TopRight) || hit == Hit::Edge(
                Handle::BottomLeft,
            )) ==> look == CursorShape::NeswResize
            &&& grabs && (hit == Hit::Edge(Handle::Top) || hit == Hit::Edge(Handle::Bottom))
                ==> look == CursorShape::NsResize
            &&& grabs && (hit == Hit::Edge(Handle::Left) || hit == Hit::Edge(Handle::Right))
                ==> look == CursorShape::EwResize
            &&& grabs && hit == Hit::Inside ==> look == CursorShape::Move
            &&& grabs && hit == Hit::Outside ==> look == CursorShape::Crosshair
        }),
{
}

/// A pointer motion is remembered, its look is asked for only where it changes, and
/// the overlay is drawn again until a selection was made. Nothing else changes.
pub proof fn law_pointer_motion(v: SelectorView, p: Point)
    ensures
        ({
            let look = shape_at(v.drag, v.toolbar.active_tool, p);
            &&& v.pointed(p).cursor == p
            &&& v.pointed(p).shape == Some(look)
            &&& v.shape == Some(look) ==> v.motion(p).shape is None
            &&& v.shape != Some(look) ==> v.motion(p).shape == Some(look)
            &&& v.motion(p).redraw <==> v.drag.state != SelectorState::Selected
            &&& v.pointed(p).drag == v.drag
            &&& v.pointed(p).current == v.current
            &&& v.pointed(p).history == v.history
            &&& v.pointed(p).toolbar == v.toolbar
            &&& v.pointed(p).outcome == v.outcome
        }),
{
}

/// The names of the pointer's looks.
pub proof fn law_cursor_names()
    ensures
        CursorShape::NwseResize.spec_name() == "nwse-resize"@,
        CursorShape::NeswResize.spec_name() == "nesw-resize"@,
        CursorShape::NsResize.spec_name() == "ns-resize"@,
        CursorShape::EwResize.spec_name() == "ew-resize"@,
        CursorShape::Move.spec_name() == "move"@,
        CursorShape::Crosshair.spec_name() == "crosshair"@,
        CursorShape::Default.spec_name() == "default"@,
{
}

/// Ctrl with C, S or P, capital or not, copies, saves or pins and is kept from
/// others; Escape without Ctrl exits and is not; no other key does anything.
pub proof fn law_shortcuts(key: u32, ctrl: bool)
    ensures
        ({
            let k = key_meaning(key, ctrl);
            &&& k.request == Some(Request::Copy) <==> ctrl && (key == 67 || key == 99)
            &&& k.request == Some(Request::Save) <==> ctrl && (key == 83 || key == 115)
            &&& k.request == Some(Request::Pin) <==> ctrl && (key == 80 || key == 112)
            &&& k.request == Some(Request::Exit) <==> !ctrl && key == 65307
            &&& k.request != Some(Request::Undo) && k.request != Some(Request::Redo)
            &&& k.stop <==> ctrl && k.request is Some
        }),
{
}

/// A new session has nothing selected, drawn, undone or decided, the usual tool and
/// style, and a lens of sixty pixels, eighty to the right of and below the pointer.
pub proof fn law_new_session(screen_w: i64, screen_h: i64)
    ensures
        ({
            let v = SelectorView::initial(screen_w, screen_h);
            &&& v.drag.state == SelectorState::Idle
            &&& v.drag.selection == (SelectionRect { x: 0, y: 0, w: 0, h: 0 })
            &&& v.drag.mode is None
            &&& v.drag.start == (Point { x: 0, y: 0 })
            &&& v.cursor == (Point { x: 0, y: 0 })
            &&& v.shape is None
            &&& v.current is None
            &&& v.history.done.len() == 0 && v.history.undone.len() == 0
            &&& v.toolbar.active_tool == ToolKind::Select
            &&& v.toolbar.style.color == tools::Color(929, 267, 267, 1000)
            &&& v.toolbar.style.width == 4 * 1024
            &&& v.screen_w == screen_w && v.screen_h == screen_h
            &&& v.magnifier.radius == 60 * 1024
            &&& v.magnifier.zoom == 8
            &&& v.magnifier.offset_x == 80 * 1024
            &&& v.magnifier.offset_y == 80 * 1024
            &&& v.outcome is None
        }),
{
}

/// A press with a drawing tool begins an annotation that is nothing but the point
/// of the press: an empty box with its corner there, a line that ends where it
/// begins, a brush line of one point. It has the style in force; mosaics have
/// cells of twelve pixels. The selection tool and the text tool begin none.
pub proof fn law_stroke_begins_at_the_press(tool: ToolKind, at: Point, style: StrokeStyle)
    ensures
        ({
            let c = first_stroke(tool, at, style);
            &&& c is None <==> tool == ToolKind::Select || tool == ToolKind::Text
            &&& tool == ToolKind::Rect ==> c == Some(
                CommandView::Rect { x: at.x, y: at.y, w: 0, h: 0, style },
            )
            &&& tool == ToolKind::Ellipse ==> c == Some(
                CommandView::Ellipse { x: at.x, y: at.y, w: 0, h: 0, style },
            )
            &&& tool == ToolKind::Mosaic ==> c == Some(
                CommandView::Mosaic { x: at.x, y: at.y, w: 0, h: 0, block: 12 },
            )
            &&& tool == ToolKind::Line ==> c == Some(
                CommandView::Line { x1: at.x, y1: at.y, x2: at.x, y2: at.y, style },
            )
            &&& tool == ToolKind::Arrow ==> c == Some(
                CommandView::Arrow { x1: at.x, y1: at.y, x2: at.x, y2: at.y, style },
            )
            &&& tool == ToolKind::Brush ==> c == Some(
                CommandView::Brush { points: seq![at], style },
            )
        }),
{
}

/// A press that begins a new selection drops all annotations and what was undone of
/// them; a press with a drawing tool begins an annotation at the pointer's distance
/// from the selection's corner, over those that are there. Nothing else changes but
/// the drag.
pub proof fn law_press_begins(s: SelectorView, p: Point, at: Point)
    requires
        s.drag.wf(),
        p.within(REACH as int),
        at.x == p.x - s.drag.selection.x,
        at.y == p.y - s.drag.selection.y,
    ensures
        ({
            let after = s.begun(p);
            let made = s.drag.state == SelectorState::Selected;
            let tool = s.toolbar.active_tool;
            &&& after.drag == s.drag.begun(tool, p)
            &&& after.drag.state == SelectorState::Selecting && (!made || tool == ToolKind::Select)
                ==> {
                &&& after.current is None
                &&& after.history.done.len() == 0
                &&& after.history.undone.len() == 0
            }
            &&& made && tool != ToolKind::Select ==> {
                &&& after.current == first_stroke(tool, at, s.toolbar.style)
                &&& after.history == s.history
            }
            &&& made && tool == ToolKind::Select && after.drag.state == SelectorState::Selected ==> {
                &&& after.current == s.current
                &&& after.history == s.history
            }
            &&& after.toolbar == s.toolbar
            &&& after.cursor == s.cursor
            &&& after.shape == s.shape
            &&& after.screen_w == s.screen_w && after.screen_h == s.screen_h
            &&& after.magnifier == s.magnifier
            &&& after.outcome == s.outcome
        }),
{
    drag::law_press(s.drag, s.toolbar.active_tool, p);
}

} // verus!
