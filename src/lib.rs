//! A multi-monitor status bar: the widget store and its command protocol,
//! the layout of widgets on each output, the drawing steps of a redraw, and
//! click dispatch over what was painted.

pub mod colour;
pub mod layout;
pub mod paint;
pub mod render;
pub mod screen;
pub mod store;
pub mod widget;

pub use colour::{BadHexFormat, Colour, Colours};
pub use layout::{layout, check_sizes, Cursors, Placement, Rectangle, TextSize};
pub use paint::{handle_event, hit_test, outputs_for, Event, Paint, Reaction};
pub use render::{render, DrawOp, Frame};
pub use screen::{order_outputs, output_is_active, strut, strut_partial};
pub use store::{UpdateError, WidgetStore};
pub use widget::{
    Alignment, Area, ClickHandler, Command, Config, Constraint, Constraints, Draw,
    MonitorConstraint, MouseButton, Update, Widget,
};
