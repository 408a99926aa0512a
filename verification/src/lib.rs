//! Screenshot selection, annotation and pinning.
//!
//! The crate holds everything that the desktop program decides or computes:
//! the capture strategy, the pixel conversions, the selection state machine,
//! the annotation history and the display lists that a 2-D canvas replays.
//! Talking to the compositor, to the portal and to the canvas is left to the
//! program around it.
//!
//! Coordinates are integers, [`units::UNIT`] of them to the pixel. Wayland
//! delivers pointer positions in 24.8 fixed point, so every position that a
//! pointer reports in a window, and the midpoint of any two, is represented
//! exactly. Where the capture has another size than the desktop, the places of the
//! windows in it are rounded to the nearest coordinate.

pub mod capture;
pub mod chunks;
pub mod cli;
pub mod deflate;
pub mod demo;
pub mod desktop;
pub mod drag;
pub mod history;
pub mod image;
pub mod overlay;
pub mod paths;
pub mod pin_window;
pub mod png;
pub mod render;
pub mod screencast;
pub mod selection;
pub mod selector;
pub mod text;
pub mod toolbar;
pub mod tools;
pub mod units;

pub use capture::{wrap_surface, ScreenshotService};
pub use drag::SelectorState;
pub use history::History;
pub use pin_window::PinWindow;
pub use render::{render_command, render_stack, PaintOp};
pub use selection::SelectionRect;
pub use selector::{MagnifierConfig, Selector};
pub use toolbar::{build_toolbar, ToolbarItem, ToolbarState};
pub use tools::{Color, DrawCommand, StrokeStyle, ToolKind};
