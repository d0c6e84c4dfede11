//! Input events and the input state they drive.
//!
//! All user input reaches the `Ui` as raw input events, which tend to be fairly low level. The
//! `Ui` passes each of them to its `GlobalInput`, which keeps track of the state of input for the
//! entire `Ui` and aggregates the low level events into higher level ones: a mouse button that is
//! pressed and then released gives a `UiEvent::MouseClick`. A `WidgetInput` gives a single
//! widget the events that pertain to it, relative to the widget's own origin.

pub mod modifier;
pub mod mouse_button;
pub mod button_map;
pub mod ui_event;
pub mod input_state;
pub mod global_input;
pub mod event_provider;
pub mod aggregator;
pub mod widget_input;
