//! The events that the `Ui` stores for a cycle, and the events that a single widget receives.
//!
//! `S` is the scalar type of positions; `X` holds whatever raw input this library passes on
//! without reading it.

use vstd::prelude::*;
use crate::events::modifier::ModifierKey;
use crate::events::mouse_button::MouseButton;
use crate::events::ui_event::{Input, Motion, MouseClick, Scroll};
use crate::widget::Index;

verus! {

/// The button of a press or a release: a mouse button, with the position of the mouse, or a
/// keyboard key, by its key code.
#[derive(Clone, Copy, Debug, PartialEq)]
pub enum Button<S> {
    /// A mouse button, with the position of the mouse.
    Mouse(MouseButton, [S; 2]),
    /// A keyboard key.
    Keyboard(u32),
}

/// A button was pressed.
#[derive(Clone, Copy, Debug, PartialEq)]
pub struct Press<S> {
    /// The button that was pressed.
    pub button: Button<S>,
    /// The modifier keys held down.
    pub modifiers: ModifierKey,
}

/// A button was released.
#[derive(Clone, Copy, Debug, PartialEq)]
pub struct Release<S> {
    /// The button that was released.
    pub button: Button<S>,
    /// The modifier keys held down.
    pub modifiers: ModifierKey,
}

/// Something moved.
#[derive(Clone, Copy, Debug, PartialEq)]
pub struct Move<S, X> {
    /// The motion.
    pub motion: Motion<S, X>,
    /// The modifier keys held down.
    pub modifiers: ModifierKey,
}

/// The mouse moved with a button held down.
#[derive(Clone, Copy, Debug, PartialEq)]
pub struct Drag<S> {
    /// The button held down.
    pub button: MouseButton,
    /// Where the button was pressed.
    pub origin: [S; 2],
    /// Where the mouse was before this move.
    pub from: [S; 2],
    /// Where the mouse is after this move.
    pub to: [S; 2],
    /// The move: `to` minus `from`.
    pub delta_xy: [S; 2],
    /// The whole drag so far: `to` minus `origin`.
    pub total_delta_xy: [S; 2],
    /// The modifier keys held down.
    pub modifiers: ModifierKey,
}

/// Text was entered.
#[derive(Clone, Debug, PartialEq)]
pub struct Text {
    /// The text.
    pub string: String,
    /// The modifier keys held down.
    pub modifiers: ModifierKey,
}

/// An event interpreted by the `Ui` from raw input.
#[derive(Clone, Debug, PartialEq)]
pub enum Ui<S, X> {
    /// The given widget is starting to capture the mouse.
    WidgetCapturesMouse(Index),
    /// The given widget is losing mouse capture.
    WidgetUncapturesMouse(Index),
    /// The given widget is starting to capture the keyboard.
    WidgetCapturesKeyboard(Index),
    /// The given widget is losing keyboard capture.
    WidgetUncapturesKeyboard(Index),
    /// A click, over the given widget if any.
    Click(Option<Index>, MouseClick<S>),
    /// A drag, of the widget the button was pressed over, if any.
    Drag(Option<Index>, Drag<S>),
    /// A scroll, over the given widget if any.
    Scroll(Option<Index>, Scroll<S>),
    /// A button press, for the widget capturing the device, if any.
    Press(Option<Index>, Press<S>),
    /// A button release, for the widget capturing the device, if any.
    Release(Option<Index>, Release<S>),
    /// A move, for the widget capturing the mouse, if any.
    Move(Option<Index>, Move<S, X>),
    /// A second click of the same button at the same place soon after the first, over the given
    /// widget if any.
    DoubleClick(Option<Index>, MouseClick<S>),
    /// Text, for the widget capturing the keyboard, if any.
    Text(Option<Index>, Text),
    /// The window was resized to the given width and height.
    WindowResized(u32, u32),
}

/// An event stored by the `Ui`: either raw input or an interpreted event.
#[derive(Clone, Debug, PartialEq)]
pub enum Event<S, X> {
    /// Raw input.
    Raw(Input<S, X>),
    /// An interpreted event.
    Ui(Ui<S, X>),
}

/// An event as a single widget receives it.
#[derive(Clone, Debug, PartialEq)]
pub enum Widget<S, X> {
    /// Raw input, with mouse cursor positions relative to the middle of the widget.
    Raw(Input<S, X>),
    /// A click over the widget.
    Click(MouseClick<S>),
    /// A drag of the widget.
    Drag(Drag<S>),
    /// A scroll over the widget.
    Scroll(Scroll<S>),
    /// The widget starts capturing the mouse.
    CapturesMouse,
    /// The widget stops capturing the mouse.
    UncapturesMouse,
    /// The widget starts capturing the keyboard.
    CapturesKeyboard,
    /// The widget stops capturing the keyboard.
    UncapturesKeyboard,
}

} // verus!
