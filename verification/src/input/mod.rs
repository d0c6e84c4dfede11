//! This module contains all the logic for handling input events and providing them to widgets.
//!
//! All user input is provided to the `Ui` in the form of `input::Input` events. These raw input
//! events tend to be fairly low level. The `Ui` stores each of these events in its `Global`,
//! which keeps track of the state of input for the entire `Ui`.
//!
//! Whenever there's an update, all of the events that have occurred since the last update will be
//! available for widgets to process.

pub mod global;
pub mod source;
pub mod touch;
pub mod widget;

pub use self::global::Global;
pub use self::source::Source;
