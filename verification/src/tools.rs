//! Annotations: the drawing commands and the styles they are drawn with.
//!
//! Command coordinates are relative to the selection's upper left corner, so a
//! command can be replayed on the screen and on the cropped image alike.

use crate::render::PaintOp;
use crate::selection::TRIVIAL;
use crate::units::{self, Point, LIMIT, UNIT};
use vstd::prelude::*;

verus! {

/// Bound on the coordinates and sizes of a drawing command: a thousand million
/// pixels.
pub const DRAW_LIMIT: i64 = 0x100_0000_0000;

/// A colour with alpha, in thousandths.
#[derive(Debug, Clone, Copy, PartialEq, Eq, Structural)]
pub struct Color(pub u16, pub u16, pub u16, pub u16);

impl Color {
    #[verifier::allow_in_spec]
    pub fn red() -> Color
        returns
            Color(929, 267, 267, 1000),
    {
        Color(929, 267, 267, 1000)
    }

    #[verifier::allow_in_spec]
    pub fn orange() -> Color
        returns
            Color(976, 451, 86, 1000),
    {
        Color(976, 451, 86, 1000)
    }

    #[verifier::allow_in_spec]
    pub fn yellow() -> Color
        returns
            Color(918, 702, 31, 1000),
    {
        Color(918, 702, 31, 1000)
    }

    #[verifier::allow_in_spec]
    pub fn green() -> Color
        returns
            Color(133, 773, 369, 1000),
    {
        Color(133, 773, 369, 1000)
    }

    #[verifier::allow_in_spec]
    pub fn blue() -> Color
        returns
            Color(231, 510, 965, 1000),
    {
        Color(231, 510, 965, 1000)
    }

    #[verifier::allow_in_spec]
    pub fn white() -> Color
        returns
            Color(973, 980, 988, 1000),
    {
        Color(973, 980, 988, 1000)
    }

    #[verifier::allow_in_spec]
    pub fn black() -> Color
        returns
            Color(94, 94, 106, 1000),
    {
        Color(94, 94, 106, 1000)
    }

    /// Makes this colour the canvas's source.
    pub fn apply<'a>(self) -> (r: PaintOp<'a>)
        ensures
            r == PaintOp::Source::<'a>(self),
    {
        PaintOp::Source(self)
    }
}

/// How a line is drawn.
#[derive(Debug, Clone, Copy, PartialEq, Eq, Structural)]
pub struct StrokeStyle {
    pub color: Color,
    pub width: i64,
}

impl Default for StrokeStyle {
    fn default() -> (r: StrokeStyle)
        ensures
            r == (StrokeStyle { color: Color::red(), width: 4096 }),
    {
        StrokeStyle { color: Color::red(), width: 4096 }
    }
}

/// The tools of the toolbar.
#[derive(Debug, Clone, Copy, PartialEq, Eq, Structural)]
pub enum ToolKind {
    /// Selects, moves and resizes; draws nothing.
    Select,
    Rect,
    Ellipse,
    Line,
    Arrow,
    Brush,
    Mosaic,
    Text,
}

/// A finished annotation.
#[derive(Debug, Clone)]
pub enum DrawCommand {
    /// A stroked rectangle.
    Rect { x: i64, y: i64, w: i64, h: i64, style: StrokeStyle },
    /// A stroked ellipse, inscribed in the rectangle.
    Ellipse { x: i64, y: i64, w: i64, h: i64, style: StrokeStyle },
    /// A straight line.
    Line { x1: i64, y1: i64, x2: i64, y2: i64, style: StrokeStyle },
    /// A line with an arrowhead at its end.
    Arrow { x1: i64, y1: i64, x2: i64, y2: i64, style: StrokeStyle },
    /// A free-hand line.
    Brush { points: Vec<Point>, style: StrokeStyle },
    /// A rectangle split into cells of `block` pixels, each filled with the
    /// average of what it covers.
    Mosaic { x: i64, y: i64, w: i64, h: i64, block: i32 },
    /// A line of text below and right of the point.
    Text { x: i64, y: i64, text: String, size: i64, color: Color },
}

impl DrawCommand {
    /// The stroke style, or the default one where the command has none.
    pub open spec fn stroke_style(self) -> StrokeStyle {
        match self {
            DrawCommand::Rect { style, .. } => style,
            DrawCommand::Ellipse { style, .. } => style,
            DrawCommand::Line { style, .. } => style,
            DrawCommand::Arrow { style, .. } => style,
            DrawCommand::Brush { style, .. } => style,
            DrawCommand::Mosaic { .. } => StrokeStyle { color: Color::red(), width: 4096 },
            DrawCommand::Text { .. } => StrokeStyle { color: Color::red(), width: 4096 },
        }
    }

    /// The stroke style of this command. Mosaics and texts have none and report
    /// the default.
    pub fn style(&self) -> (r: StrokeStyle)
        ensures
            r == self.stroke_style(),
    {
        match self {
            DrawCommand::Rect { style, .. } => *style,
            DrawCommand::Ellipse { style, .. } => *style,
            DrawCommand::Line { style, .. } => *style,
            DrawCommand::Arrow { style, .. } => *style,
            DrawCommand::Brush { style, .. } => *style,
            DrawCommand::Mosaic { .. } => StrokeStyle::default(),
            DrawCommand::Text { .. } => StrokeStyle::default(),
        }
    }

    /// The coordinates from which other positions are computed are small enough
    /// for that.
    pub open spec fn measurable(self) -> bool {
        self@.measurable()
    }
}

/// What a drawing command says, with the points and characters as sequences.
#[verifier::ext_equal]
pub enum CommandView {
    Rect { x: i64, y: i64, w: i64, h: i64, style: StrokeStyle },
    Ellipse { x: i64, y: i64, w: i64, h: i64, style: StrokeStyle },
    Line { x1: i64, y1: i64, x2: i64, y2: i64, style: StrokeStyle },
    Arrow { x1: i64, y1: i64, x2: i64, y2: i64, style: StrokeStyle },
    Brush { points: Seq<Point>, style: StrokeStyle },
    Mosaic { x: i64, y: i64, w: i64, h: i64, block: i32 },
    Text { x: i64, y: i64, text: Seq<char>, size: i64, color: Color },
}

impl View for DrawCommand {
    type V = CommandView;

    open spec fn view(&self) -> CommandView {
        match *self {
            DrawCommand::Rect { x, y, w, h, style } => CommandView::Rect { x, y, w, h, style },
            DrawCommand::Ellipse { x, y, w, h, style } => {
                CommandView::Ellipse { x, y, w, h, style }
            },
            DrawCommand::Line { x1, y1, x2, y2, style } => {
                CommandView::Line { x1, y1, x2, y2, style }
            },
            DrawCommand::Arrow { x1, y1, x2, y2, style } => {
                CommandView::Arrow { x1, y1, x2, y2, style }
            },
            DrawCommand::Brush { points, style } => CommandView::Brush { points: points@, style },
            DrawCommand::Mosaic { x, y, w, h, block } => CommandView::Mosaic { x, y, w, h, block },
            DrawCommand::Text { x, y, text, size, color } => {
                CommandView::Text { x, y, text: text@, size, color }
            },
        }
    }
}

/// What a list of drawing commands says.
pub open spec fn command_views(s: Seq<DrawCommand>) -> Seq<CommandView> {
    Seq::new(s.len(), |i: int| s[i]@)
}

impl CommandView {
    /// The coordinates from which other positions are computed are small enough
    /// for that.
    pub open spec fn measurable(self) -> bool {
        match self {
            CommandView::Ellipse { x, y, w, h, .. } => {
                &&& -DRAW_LIMIT <= x <= DRAW_LIMIT
                &&& -DRAW_LIMIT <= y <= DRAW_LIMIT
                &&& -DRAW_LIMIT <= w <= DRAW_LIMIT
                &&& -DRAW_LIMIT <= h <= DRAW_LIMIT
            },
            CommandView::Arrow { style, .. } => -DRAW_LIMIT <= style.width <= DRAW_LIMIT,
            CommandView::Mosaic { x, y, w, h, .. } => {
                &&& -DRAW_LIMIT <= x <= DRAW_LIMIT
                &&& -DRAW_LIMIT <= y <= DRAW_LIMIT
                &&& -DRAW_LIMIT <= w <= DRAW_LIMIT
                &&& -DRAW_LIMIT <= h <= DRAW_LIMIT
            },
            CommandView::Text { y, size, .. } => {
                &&& -LIMIT <= y <= LIMIT
                &&& -LIMIT <= size <= LIMIT
            },
            _ => true,
        }
    }

    /// The command is too small to keep: a box with a side of less than three
    /// pixels, a line that moves less than three pixels both ways, a brush line
    /// without a second point, a text without characters.
    pub open spec fn trivial(self) -> bool {
        match self {
            CommandView::Rect { w, h, .. } => slight(w as int) || slight(h as int),
            CommandView::Ellipse { w, h, .. } => slight(w as int) || slight(h as int),
            CommandView::Mosaic { w, h, .. } => slight(w as int) || slight(h as int),
            CommandView::Line { x1, y1, x2, y2, .. } => {
                slight(units::magnitude(x2 - x1)) && slight(units::magnitude(y2 - y1))
            },
            CommandView::Arrow { x1, y1, x2, y2, .. } => {
                slight(units::magnitude(x2 - x1)) && slight(units::magnitude(y2 - y1))
            },
            CommandView::Brush { points, .. } => points.len() < 2,
            CommandView::Text { text, .. } => text.len() == 0,
        }
    }
}

/// A length in coordinate units is shorter than three pixels.
pub open spec fn slight(a: int) -> bool {
    a < TRIVIAL
}

/// The distance between two coordinates is less than three pixels.
fn is_near(a: i64, b: i64) -> (r: bool)
    ensures
        r == slight(units::magnitude(b - a)),
{
    if a <= b {
        a > i64::MAX - TRIVIAL || b < a + TRIVIAL
    } else {
        b > i64::MAX - TRIVIAL || a < b + TRIVIAL
    }
}

pub fn is_command_trivial(c: &DrawCommand) -> (r: bool)
    ensures
        r == c@.trivial(),
{
    match c {
        DrawCommand::Rect { w, h, .. } => *w < TRIVIAL || *h < TRIVIAL,
        DrawCommand::Ellipse { w, h, .. } => *w < TRIVIAL || *h < TRIVIAL,
        DrawCommand::Mosaic { w, h, .. } => *w < TRIVIAL || *h < TRIVIAL,
        DrawCommand::Line { x1, y1, x2, y2, .. } => is_near(*x1, *x2) && is_near(*y1, *y2),
        DrawCommand::Arrow { x1, y1, x2, y2, .. } => is_near(*x1, *x2) && is_near(*y1, *y2),
        DrawCommand::Brush { points, .. } => points.len() < 2,
        DrawCommand::Text { text, .. } => text.as_str().unicode_len() == 0,
    }
}

/// The size of an annotation's letters: five times the line width, and at least
/// sixteen pixels.
pub open spec fn text_size(style: StrokeStyle) -> int {
    units::greatest(style.width * 5, 16 * UNIT)
}

/// An annotation with its box at `pos`.
pub open spec fn text_view(pos: Point, style: StrokeStyle, text: Seq<char>) -> CommandView {
    CommandView::Text {
        x: pos.x,
        y: pos.y,
        text,
        size: text_size(style) as i64,
        color: style.color,
    }
}

/// The annotation for an entered text, with its box at `pos`. An empty text
/// gives none.
pub fn text_command(pos: Point, style: StrokeStyle, text: String) -> (r: Option<DrawCommand>)
    requires
        -DRAW_LIMIT <= style.width <= DRAW_LIMIT,
    ensures
        text@.len() == 0 <==> r is None,
        r matches Some(c) ==> {
            &&& c@ == text_view(pos, style, text@)
            &&& pos.within(DRAW_LIMIT as int) ==> c.measurable()
        },
{
    if text.as_str().unicode_len() == 0 {
        None
    } else {
        let size: i64 = units::max_of(style.width * 5, 16 * UNIT);
        Some(DrawCommand::Text { x: pos.x, y: pos.y, text, size, color: style.color })
    }
}

/// The preset colours, the first of which, in lines of four pixels, is the default
/// style.
pub proof fn law_palette()
    ensures
        Color::red() == Color(929, 267, 267, 1000),
        Color::orange() == Color(976, 451, 86, 1000),
        Color::yellow() == Color(918, 702, 31, 1000),
        Color::green() == Color(133, 773, 369, 1000),
        Color::blue() == Color(231, 510, 965, 1000),
        Color::white() == Color(973, 980, 988, 1000),
        Color::black() == Color(94, 94, 106, 1000),
{
}

/// A command with a stroke has the style it was drawn with; mosaics and texts have
/// red lines of four pixels.
pub proof fn law_stroke_style(c: DrawCommand)
    ensures
        c matches DrawCommand::Rect { style, .. } ==> c.stroke_style() == style,
        c matches DrawCommand::Ellipse { style, .. } ==> c.stroke_style() == style,
        c matches DrawCommand::Line { style, .. } ==> c.stroke_style() == style,
        c matches DrawCommand::Arrow { style, .. } ==> c.stroke_style() == style,
        c matches DrawCommand::Brush { style, .. } ==> c.stroke_style() == style,
        c is Mosaic || c is Text ==> c.stroke_style().color == Color(929, 267, 267, 1000)
            && c.stroke_style().width == 4096,
{
}

/// A box is dropped exactly if a side has less than three pixels, a line exactly if
/// its ends are less than three pixels apart both ways, a brush line exactly if it
/// has no second point, and a text exactly if it is empty.
pub proof fn law_dropped_commands(c: CommandView)
    ensures
        c matches CommandView::Rect { w, h, .. } ==> (c.trivial() <==> w < 3072 || h < 3072),
        c matches CommandView::Ellipse { w, h, .. } ==> (c.trivial() <==> w < 3072 || h < 3072),
        c matches CommandView::Mosaic { w, h, .. } ==> (c.trivial() <==> w < 3072 || h < 3072),
        c matches CommandView::Line { x1, y1, x2, y2, .. } ==> (c.trivial() <==> -3072 < x2 - x1
            < 3072 && -3072 < y2 - y1 < 3072),
        c matches CommandView::Arrow { x1, y1, x2, y2, .. } ==> (c.trivial() <==> -3072 < x2 - x1
            < 3072 && -3072 < y2 - y1 < 3072),
        c matches CommandView::Brush { points, .. } ==> (c.trivial() <==> points.len() < 2),
        c matches CommandView::Text { text, .. } ==> (c.trivial() <==> text.len() == 0),
{
}

/// An annotation stands where it was asked for, says what was entered in the
/// chosen colour, and has letters of five line widths, but not under sixteen
/// pixels.
pub proof fn law_text_annotation(pos: Point, style: StrokeStyle, text: Seq<char>)
    requires
        -DRAW_LIMIT <= style.width <= DRAW_LIMIT,
    ensures
        text_view(pos, style, text) matches CommandView::Text { x, y, text: t, size, color } && {
            &&& x == pos.x
            &&& y == pos.y
            &&& t == text
            &&& color == style.color
            &&& style.width * 5 >= 16 * 1024 ==> size == style.width * 5
            &&& style.width * 5 <= 16 * 1024 ==> size == 16 * 1024
        },
{
}

/// The view of a command has the command's own coordinates, sizes and styles.
pub proof fn law_command_view(c: DrawCommand)
    ensures
        c matches DrawCommand::Rect { x, y, w, h, style } ==> c@ == (CommandView::Rect {
            x,
            y,
            w,
            h,
            style,
        }),
        c matches DrawCommand::Ellipse { x, y, w, h, style } ==> c@ == (CommandView::Ellipse {
            x,
            y,
            w,
            h,
            style,
        }),
        c matches DrawCommand::Line { x1, y1, x2, y2, style } ==> c@ == (CommandView::Line {
            x1,
            y1,
            x2,
            y2,
            style,
        }),
        c matches DrawCommand::Arrow { x1, y1, x2, y2, style } ==> c@ == (CommandView::Arrow {
            x1,
            y1,
            x2,
            y2,
            style,
        }),
        c matches DrawCommand::Brush { points, style } ==> c@ == (CommandView::Brush {
            points: points@,
            style,
        }),
        c matches DrawCommand::Mosaic { x, y, w, h, block } ==> c@ == (CommandView::Mosaic {
            x,
            y,
            w,
            h,
            block,
        }),
        c matches DrawCommand::Text { x, y, text, size, color } ==> c@ == (CommandView::Text {
            x,
            y,
            text: text@,
            size,
            color,
        }),
{
}

/// A list of commands says what its commands say, one by one.
pub proof fn law_command_views(commands: Seq<DrawCommand>, i: int)
    requires
        0 <= i < commands.len(),
    ensures
        command_views(commands).len() == commands.len(),
        command_views(commands)[i] == commands[i]@,
{
}

} // verus!
