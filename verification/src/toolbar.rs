//! The floating toolbar: what it offers and what a click on it does.

use crate::tools::{Color, StrokeStyle, ToolKind};
use crate::units::UNIT;
use vstd::prelude::*;

verus! {

/// The preset colours.
#[derive(Debug, Clone, Copy, PartialEq, Eq, Structural)]
pub enum Swatch {
    Red,
    Orange,
    Yellow,
    Green,
    Blue,
    White,
    Black,
}

impl Swatch {
    pub open spec fn spec_color(self) -> Color {
        match self {
            Swatch::Red => Color::red(),
            Swatch::Orange => Color::orange(),
            Swatch::Yellow => Color::yellow(),
            Swatch::Green => Color::green(),
            Swatch::Blue => Color::blue(),
            Swatch::White => Color::white(),
            Swatch::Black => Color::black(),
        }
    }

    #[verifier::when_used_as_spec(spec_color)]
    pub fn color(self) -> (r: Color)
        ensures
            r == self.spec_color(),
    {
        match self {
            Swatch::Red => Color::red(),
            Swatch::Orange => Color::orange(),
            Swatch::Yellow => Color::yellow(),
            Swatch::Green => Color::green(),
            Swatch::Blue => Color::blue(),
            Swatch::White => Color::white(),
            Swatch::Black => Color::black(),
        }
    }
}

/// The preset line widths: two, four, six and eight pixels.
#[derive(Debug, Clone, Copy, PartialEq, Eq, Structural)]
pub enum Thickness {
    Two,
    Four,
    Six,
    Eight,
}

impl Thickness {
    pub open spec fn spec_width(self) -> i64 {
        match self {
            Thickness::Two => 2048,
            Thickness::Four => 4096,
            Thickness::Six => 6144,
            Thickness::Eight => 8192,
        }
    }

    #[verifier::when_used_as_spec(spec_width)]
    pub fn width(self) -> (r: i64)
        ensures
            r == self.spec_width(),
    {
        match self {
            Thickness::Two => 2 * UNIT,
            Thickness::Four => 4 * UNIT,
            Thickness::Six => 6 * UNIT,
            Thickness::Eight => 8 * UNIT,
        }
    }
}

/// What can be asked of the selector by a button or a shortcut.
#[derive(Debug, Clone, Copy, PartialEq, Eq, Structural)]
pub enum Request {
    Undo,
    Redo,
    Copy,
    Save,
    Pin,
    Exit,
}

/// One element of the toolbar.
#[derive(Debug, Clone, Copy, PartialEq, Eq, Structural)]
pub enum ToolbarItem {
    Tool(ToolKind),
    Color(Swatch),
    Width(Thickness),
    Button(Request),
    Separator,
}

/// The tool and the stroke style that are chosen.
#[derive(Debug, Clone, Copy, PartialEq, Eq, Structural)]
pub struct ToolbarState {
    pub active_tool: ToolKind,
    pub style: StrokeStyle,
}

impl Default for ToolbarState {
    fn default() -> (r: ToolbarState)
        ensures
            r == ToolbarState::initial(),
    {
        ToolbarState { active_tool: ToolKind::Select, style: StrokeStyle::default() }
    }
}

impl ToolbarState {
    /// The selection tool, and red lines of four pixels.
    pub open spec fn initial() -> ToolbarState {
        ToolbarState {
            active_tool: ToolKind::Select,
            style: StrokeStyle { color: Color::red(), width: 4096 },
        }
    }

    /// The style is one that the toolbar offers.
    pub open spec fn offered(self) -> bool {
        &&& exists|s: Swatch| self.style.color == #[trigger] s.color()
        &&& exists|t: Thickness| self.style.width == #[trigger] t.width()
    }

    /// The item stands for a choice that is in force.
    pub open spec fn in_force(self, item: ToolbarItem) -> bool {
        match item {
            ToolbarItem::Tool(kind) => self.active_tool == kind,
            ToolbarItem::Color(s) => self.style.color == s.color(),
            ToolbarItem::Width(t) => self.style.width == t.width(),
            ToolbarItem::Button(_) => false,
            ToolbarItem::Separator => false,
        }
    }

    /// The state after a click on the item.
    pub open spec fn clicked(self, item: ToolbarItem) -> ToolbarState {
        match item {
            ToolbarItem::Tool(kind) => ToolbarState { active_tool: kind, style: self.style },
            ToolbarItem::Color(s) => ToolbarState {
                active_tool: self.active_tool,
                style: StrokeStyle { color: s.color(), width: self.style.width },
            },
            ToolbarItem::Width(t) => ToolbarState {
                active_tool: self.active_tool,
                style: StrokeStyle { color: self.style.color, width: t.width() },
            },
            ToolbarItem::Button(_) => self,
            ToolbarItem::Separator => self,
        }
    }

    /// Whether the item is to be highlighted.
    pub fn is_active(&self, item: ToolbarItem) -> (r: bool)
        ensures
            r == self.in_force(item),
    {
        match item {
            ToolbarItem::Tool(kind) => self.active_tool == kind,
            ToolbarItem::Color(s) => self.style.color == s.color(),
            ToolbarItem::Width(t) => self.style.width == t.width(),
            ToolbarItem::Button(_) => false,
            ToolbarItem::Separator => false,
        }
    }

    /// Carries out a click on an item: a choice comes into force, a button asks
    /// for something.
    pub fn click(&mut self, item: ToolbarItem) -> (r: Option<Request>)
        ensures
            *final(self) == old(self).clicked(item),
            r == (match item {
                ToolbarItem::Button(request) => Some(request),
                _ => None,
            }),
    {
        match item {
            ToolbarItem::Tool(kind) => {
                self.active_tool = kind;
                None
            },
            ToolbarItem::Color(s) => {
                self.style.color = s.color();
                None
            },
            ToolbarItem::Width(t) => {
                self.style.width = t.width();
                None
            },
            ToolbarItem::Button(request) => Some(request),
            ToolbarItem::Separator => None,
        }
    }
}

/// The toolbar from left to right.
pub open spec fn toolbar_items() -> Seq<ToolbarItem> {
    seq![
        ToolbarItem::Tool(ToolKind::Select),
        ToolbarItem::Tool(ToolKind::Rect),
        ToolbarItem::Tool(ToolKind::Ellipse),
        ToolbarItem::Tool(ToolKind::Line),
        ToolbarItem::Tool(ToolKind::Arrow),
        ToolbarItem::Tool(ToolKind::Brush),
        ToolbarItem::Tool(ToolKind::Mosaic),
        ToolbarItem::Tool(ToolKind::Text),
        ToolbarItem::Separator,
        ToolbarItem::Color(Swatch::Red),
        ToolbarItem::Color(Swatch::Orange),
        ToolbarItem::Color(Swatch::Yellow),
        ToolbarItem::Color(Swatch::Green),
        ToolbarItem::Color(Swatch::Blue),
        ToolbarItem::Color(Swatch::White),
        ToolbarItem::Color(Swatch::Black),
        ToolbarItem::Separator,
        ToolbarItem::Width(Thickness::Two),
        ToolbarItem::Width(Thickness::Four),
        ToolbarItem::Width(Thickness::Six),
        ToolbarItem::Width(Thickness::Eight),
        ToolbarItem::Separator,
        ToolbarItem::Button(Request::Undo),
        ToolbarItem::Button(Request::Redo),
        ToolbarItem::Separator,
        ToolbarItem::Button(Request::Copy),
        ToolbarItem::Button(Request::Save),
        ToolbarItem::Button(Request::Pin),
        ToolbarItem::Button(Request::Exit),
    ]
}

/// Lays out the toolbar. Its first tool starts out pressed, so the selection
/// tool becomes the active one.
pub fn build_toolbar(state: &mut ToolbarState) -> (items: Vec<ToolbarItem>)
    ensures
        items@ == toolbar_items(),
        *final(state) == old(state).clicked(toolbar_items()[0]),
{
    let items = vec![
        ToolbarItem::Tool(ToolKind::Select),
        ToolbarItem::Tool(ToolKind::Rect),
        ToolbarItem::Tool(ToolKind::Ellipse),
        ToolbarItem::Tool(ToolKind::Line),
        ToolbarItem::Tool(ToolKind::Arrow),
        ToolbarItem::Tool(ToolKind::Brush),
        ToolbarItem::Tool(ToolKind::Mosaic),
        ToolbarItem::Tool(ToolKind::Text),
        ToolbarItem::Separator,
        ToolbarItem::Color(Swatch::Red),
        ToolbarItem::Color(Swatch::Orange),
        ToolbarItem::Color(Swatch::Yellow),
        ToolbarItem::Color(Swatch::Green),
        ToolbarItem::Color(Swatch::Blue),
        ToolbarItem::Color(Swatch::White),
        ToolbarItem::Color(Swatch::Black),
        ToolbarItem::Separator,
        ToolbarItem::Width(Thickness::Two),
        ToolbarItem::Width(Thickness::Four),
        ToolbarItem::Width(Thickness::Six),
        ToolbarItem::Width(Thickness::Eight),
        ToolbarItem::Separator,
        ToolbarItem::Button(Request::Undo),
        ToolbarItem::Button(Request::Redo),
        ToolbarItem::Separator,
        ToolbarItem::Button(Request::Copy),
        ToolbarItem::Button(Request::Save),
        ToolbarItem::Button(Request::Pin),
        ToolbarItem::Button(Request::Exit),
    ];
    assert(items@ =~= toolbar_items());
    let _ = state.click(items[0]);
    items
}

/// Two items belong to the same group of mutually exclusive choices.
pub open spec fn same_group(a: ToolbarItem, b: ToolbarItem) -> bool {
    ||| a is Tool && b is Tool
    ||| a is Color && b is Color
    ||| a is Width && b is Width
}

/// A click puts exactly the clicked choice of its group in force, and leaves the
/// other groups alone.
pub proof fn law_choices_are_exclusive(s: ToolbarState, item: ToolbarItem, other: ToolbarItem)
    requires
        same_group(item, item),
    ensures
        s.clicked(item).in_force(item),
        same_group(item, other) && other != item ==> !s.clicked(item).in_force(other),
        !same_group(item, other) ==> s.clicked(item).in_force(other) == s.in_force(other),
{
}

/// The state before any click highlights the selection tool, red and four
/// pixels, and nothing else.
pub proof fn law_initial_highlight(item: ToolbarItem)
    ensures
        ToolbarState::initial().in_force(item) <==> {
            ||| item == ToolbarItem::Tool(ToolKind::Select)
            ||| item == ToolbarItem::Color(Swatch::Red)
            ||| item == ToolbarItem::Width(Thickness::Four)
        },
{
}

/// Whatever is clicked, the style stays one that the toolbar offers.
pub proof fn law_style_stays_offered(s: ToolbarState, item: ToolbarItem)
    requires
        s.offered(),
    ensures
        s.clicked(item).offered(),
        ToolbarState::initial().offered(),
{
    assert(ToolbarState::initial().style.color == Swatch::Red.color());
    assert(ToolbarState::initial().style.width == Thickness::Four.width());
}

/// The preset colours and widths.
pub proof fn law_presets()
    ensures
        Swatch::Red.spec_color() == Color(929, 267, 267, 1000),
        Swatch::Orange.spec_color() == Color(976, 451, 86, 1000),
        Swatch::Yellow.spec_color() == Color(918, 702, 31, 1000),
        Swatch::Green.spec_color() == Color(133, 773, 369, 1000),
        Swatch::Blue.spec_color() == Color(231, 510, 965, 1000),
        Swatch::White.spec_color() == Color(973, 980, 988, 1000),
        Swatch::Black.spec_color() == Color(94, 94, 106, 1000),
        Thickness::Two.spec_width() == 2 * 1024,
        Thickness::Four.spec_width() == 4 * 1024,
        Thickness::Six.spec_width() == 6 * 1024,
        Thickness::Eight.spec_width() == 8 * 1024,
{
}

/// A click sets just what it stands for: a tool leaves the style alone, a colour
/// the tool and the width, a width the tool and the colour, and buttons and
/// separators everything.
pub proof fn law_click_sets_one_thing(s: ToolbarState, item: ToolbarItem)
    ensures
        item matches ToolbarItem::Tool(kind) ==> s.clicked(item).active_tool == kind && s.clicked(
            item,
        ).style == s.style,
        item matches ToolbarItem::Color(c) ==> {
            &&& s.clicked(item).active_tool == s.active_tool
            &&& s.clicked(item).style.color == c.spec_color()
            &&& s.clicked(item).style.width == s.style.width
        },
        item matches ToolbarItem::Width(t) ==> {
            &&& s.clicked(item).active_tool == s.active_tool
            &&& s.clicked(item).style.color == s.style.color
            &&& s.clicked(item).style.width == t.spec_width()
        },
        item is Button || item is Separator ==> s.clicked(item) == s,
{
}

/// An item is highlighted exactly if what it stands for is chosen.
pub proof fn law_highlight(s: ToolbarState, item: ToolbarItem)
    ensures
        item matches ToolbarItem::Tool(kind) ==> (s.in_force(item) <==> s.active_tool == kind),
        item matches ToolbarItem::Color(c) ==> (s.in_force(item) <==> s.style.color
            == c.spec_color()),
        item matches ToolbarItem::Width(t) ==> (s.in_force(item) <==> s.style.width
            == t.spec_width()),
        item is Button || item is Separator ==> !s.in_force(item),
{
}

/// The toolbar has eight tools, seven colours, four widths, undo and redo, and the
/// four ways to end, in this order, with separators between the groups.
pub proof fn law_toolbar_order()
    ensures
        ({
            let t = toolbar_items();
            &&& t.len() == 29
            &&& t[0] == ToolbarItem::Tool(ToolKind::Select)
            &&& t[1] == ToolbarItem::Tool(ToolKind::Rect)
            &&& t[2] == ToolbarItem::Tool(ToolKind::Ellipse)
            &&& t[3] == ToolbarItem::Tool(ToolKind::Line)
            &&& t[4] == ToolbarItem::Tool(ToolKind::Arrow)
            &&& t[5] == ToolbarItem::Tool(ToolKind::Brush)
            &&& t[6] == ToolbarItem::Tool(ToolKind::Mosaic)
            &&& t[7] == ToolbarItem::Tool(ToolKind::Text)
            &&& t[8] is Separator
            &&& t[9] == ToolbarItem::Color(Swatch::Red)
            &&& t[10] == ToolbarItem::Color(Swatch::Orange)
            &&& t[11] == ToolbarItem::Color(Swatch::Yellow)
            &&& t[12] == ToolbarItem::Color(Swatch::Green)
            &&& t[13] == ToolbarItem::Color(Swatch::Blue)
            &&& t[14] == ToolbarItem::Color(Swatch::White)
            &&& t[15] == ToolbarItem::Color(Swatch::Black)
            &&& t[16] is Separator
            &&& t[17] == ToolbarItem::Width(Thickness::Two)
            &&& t[18] == ToolbarItem::Width(Thickness::Four)
            &&& t[19] == ToolbarItem::Width(Thickness::Six)
            &&& t[20] == ToolbarItem::Width(Thickness::Eight)
            &&& t[21] is Separator
            &&& t[22] == ToolbarItem::Button(Request::Undo)
            &&& t[23] == ToolbarItem::Button(Request::Redo)
            &&& t[24] is Separator
            &&& t[25] == ToolbarItem::Button(Request::Copy)
            &&& t[26] == ToolbarItem::Button(Request::Save)
            &&& t[27] == ToolbarItem::Button(Request::Pin)
            &&& t[28] == ToolbarItem::Button(Request::Exit)
        }),
{
}

} // verus!
