//! The events that `Widget`s can listen for: raw input events and the higher level events that
//! the `GlobalInput` interprets from them.
//!
//! `S` is the scalar type of positions and scroll amounts; a position is a `[S; 2]`. `X` holds
//! whatever raw input this library passes on without reading it (controller axes, window
//! updates and the like).

use vstd::prelude::*;
use crate::events::modifier::ModifierKey;
use crate::events::mouse_button::MouseButton;
use crate::widget::Index;
use vstd::std_specs::ops::SubSpec;

verus! {

/// A button of a game controller.
#[derive(Clone, Copy, Debug, PartialEq, Eq, Structural)]
pub struct ControllerButton {
    /// Which controller.
    pub id: i32,
    /// Which button of the controller.
    pub button: u8,
}

/// A button that can be pressed and released.
#[derive(Clone, Copy, Debug, PartialEq, Eq, Structural)]
pub enum Button {
    /// A keyboard key, by its key code.
    Keyboard(u32),
    /// A mouse button.
    Mouse(MouseButton),
    /// A controller button.
    Controller(ControllerButton),
}

/// Different kinds of motion input.
#[derive(Clone, Copy, Debug, PartialEq)]
pub enum Motion<S, X> {
    /// Absolute cursor position within the window.
    MouseCursor(S, S),
    /// Relative mouse movement.
    MouseRelative(S, S),
    /// x and y in scroll ticks.
    MouseScroll(S, S),
    /// Any other motion (a controller axis, a touch).
    Other(X),
}

/// A raw input event.
#[derive(Clone, Debug, PartialEq)]
pub enum Input<S, X> {
    /// A button was pressed.
    Press(Button),
    /// A button was released.
    Release(Button),
    /// Something moved.
    Move(Motion<S, X>),
    /// Text was entered.
    Text(String),
    /// The window was resized to the given width and height.
    Resize(u32, u32),
    /// The window gained (`true`) or lost (`false`) focus.
    Focus(bool),
    /// The cursor entered (`true`) or left (`false`) the window.
    Cursor(bool),
    /// Any other input.
    Other(X),
}

/// Contains all the relevant information for a mouse drag.
#[derive(Clone, Copy, Debug, PartialEq)]
pub struct MouseDrag<S> {
    /// Which mouse button was being held during the drag.
    pub button: MouseButton,
    /// The origin of the drag: the position of the mouse when the button was first pressed.
    pub start: [S; 2],
    /// The end position of the mouse. If `in_progress` is true, then subsequent `MouseDrag`
    /// events may be created with a new `end` as the mouse continues to move.
    pub end: [S; 2],
    /// Which modifier keys are being held during the mouse drag.
    pub modifier: ModifierKey,
    /// Whether the mouse button is still being held down.
    pub in_progress: bool,
}

/// Contains all the relevant information for a mouse click.
#[derive(Clone, Copy, Debug, PartialEq)]
pub struct MouseClick<S> {
    /// Which mouse button was clicked.
    pub button: MouseButton,
    /// The location of the click.
    pub location: [S; 2],
    /// Which modifier keys, if any, were being held down when the user clicked.
    pub modifier: ModifierKey,
}

/// Holds all the relevant information about a scroll event.
#[derive(Clone, Copy, Debug, PartialEq)]
pub struct Scroll<S> {
    /// The amount of scroll along the x axis.
    pub x: S,
    /// The amount of scroll along the y axis.
    pub y: S,
    /// Which modifier keys, if any, were being held down while the scroll occurred.
    pub modifiers: ModifierKey,
}

/// All the events that `Widget`s can listen for.
#[derive(Clone, Debug, PartialEq)]
pub enum UiEvent<S, X> {
    /// A raw input event.
    Raw(Input<S, X>),
    /// A mouse button was pressed and subsequently released.
    MouseClick(MouseClick<S>),
    /// A mouse button was pressed and the mouse subsequently moved.
    MouseDrag(MouseDrag<S>),
    /// A scroll, with the modifier keys held while it occurred.
    Scroll(Scroll<S>),
    /// The given widget is starting to capture the mouse.
    WidgetCapturesMouse(Index),
    /// The given widget is losing mouse capture.
    WidgetUncapturesMouse(Index),
    /// The given widget is starting to capture the keyboard.
    WidgetCapturesKeyboard(Index),
    /// The given widget is losing keyboard capture.
    WidgetUncapturesKeyboard(Index),
}

/// Whether the event relates to the mouse: mouse button presses and releases, mouse moves and
/// scrolls, clicks, drags and scrolls. This does not mean that the event came from the mouse.
pub open spec fn is_mouse_event_spec<S, X>(e: UiEvent<S, X>) -> bool {
    match e {
        UiEvent::Raw(Input::Press(Button::Mouse(_))) => true,
        UiEvent::Raw(Input::Release(Button::Mouse(_))) => true,
        UiEvent::Raw(Input::Move(Motion::MouseCursor(_, _))) => true,
        UiEvent::Raw(Input::Move(Motion::MouseRelative(_, _))) => true,
        UiEvent::Raw(Input::Move(Motion::MouseScroll(_, _))) => true,
        UiEvent::MouseClick(_) => true,
        UiEvent::MouseDrag(_) => true,
        UiEvent::Scroll(_) => true,
        _ => false,
    }
}

/// Whether the event relates to the keyboard: key presses and releases, entered text and
/// scrolls. This does not mean that the event came from the keyboard.
pub open spec fn is_keyboard_event_spec<S, X>(e: UiEvent<S, X>) -> bool {
    match e {
        UiEvent::Raw(Input::Press(Button::Keyboard(_))) => true,
        UiEvent::Raw(Input::Release(Button::Keyboard(_))) => true,
        UiEvent::Raw(Input::Text(_)) => true,
        UiEvent::Scroll(_) => true,
        _ => false,
    }
}

/// `p` relative to `xy`.
pub open spec fn relative_point<S: std::ops::Sub<Output = S>>(p: [S; 2], xy: [S; 2]) -> [S; 2] {
    [p[0].sub_spec(xy[0]), p[1].sub_spec(xy[1])]
}

/// Whether `p` can be made relative to `xy`: both subtractions are defined.
pub open spec fn point_sub_ok<S: std::ops::Sub<Output = S>>(p: [S; 2], xy: [S; 2]) -> bool {
    p[0].sub_req(xy[0]) && p[1].sub_req(xy[1])
}

/// Whether the raw input's mouse position, if it has one, can be made relative to `xy`.
pub open spec fn input_sub_ok<S: std::ops::Sub<Output = S>, X>(i: Input<S, X>, xy: [S; 2]) -> bool {
    match i {
        Input::Move(Motion::MouseRelative(x, y)) => point_sub_ok([x, y], xy),
        Input::Move(Motion::MouseCursor(x, y)) => point_sub_ok([x, y], xy),
        _ => true,
    }
}

/// Whether every position that `relative_to` moves in the event can be made relative to `xy`.
pub open spec fn event_sub_ok<S: std::ops::Sub<Output = S>, X>(e: UiEvent<S, X>, xy: [S; 2]) -> bool {
    match e {
        UiEvent::MouseClick(c) => point_sub_ok(c.location, xy),
        UiEvent::MouseDrag(d) => point_sub_ok(d.start, xy) && point_sub_ok(d.end, xy),
        UiEvent::Raw(i) => input_sub_ok(i, xy),
        _ => true,
    }
}

/// Whether the event holds a position, which `relative_to` moves.
pub open spec fn has_position<S, X>(e: UiEvent<S, X>) -> bool {
    match e {
        UiEvent::MouseClick(_) | UiEvent::MouseDrag(_) => true,
        UiEvent::Raw(Input::Move(Motion::MouseRelative(_, _))) => true,
        UiEvent::Raw(Input::Move(Motion::MouseCursor(_, _))) => true,
        _ => false,
    }
}

/// The raw input with its mouse position made relative to `xy`: relative moves and cursor
/// moves are shifted; any other input is unchanged.
pub open spec fn relative_input<S: std::ops::Sub<Output = S>, X>(i: Input<S, X>, xy: [S; 2]) -> Input<S, X> {
    match i {
        Input::Move(Motion::MouseRelative(x, y)) => Input::Move(
            Motion::MouseRelative(x.sub_spec(xy[0]), y.sub_spec(xy[1])),
        ),
        Input::Move(Motion::MouseCursor(x, y)) => Input::Move(
            Motion::MouseCursor(x.sub_spec(xy[0]), y.sub_spec(xy[1])),
        ),
        _ => i,
    }
}

/// The event with its positions made relative to `xy`: the location of a click, the start and
/// end of a drag, and the position of a mouse move; any other event is unchanged.
pub open spec fn relative_event<S: std::ops::Sub<Output = S>, X>(e: UiEvent<S, X>, xy: [S; 2]) -> UiEvent<S, X> {
    match e {
        UiEvent::MouseClick(c) => UiEvent::MouseClick(MouseClick { location: relative_point(c.location, xy), ..c }),
        UiEvent::MouseDrag(d) => UiEvent::MouseDrag(
            MouseDrag { start: relative_point(d.start, xy), end: relative_point(d.end, xy), ..d },
        ),
        UiEvent::Raw(i) => UiEvent::Raw(relative_input(i, xy)),
        _ => e,
    }
}

impl<S: Copy + std::ops::Sub<Output = S>> MouseClick<S> {
    /// Returns a copy of the click with its location relative to `xy`.
    pub fn relative_to(&self, xy: [S; 2]) -> (r: Self)
        requires
            point_sub_ok(self.location, xy),
        ensures
            S::obeys_sub_spec() ==> r == (MouseClick { location: relative_point(self.location, xy), ..*self }),
            r.button == self.button,
            r.modifier == self.modifier,
    {
        MouseClick {
            button: self.button,
            location: [self.location[0] - xy[0], self.location[1] - xy[1]],
            modifier: self.modifier,
        }
    }
}

impl<S: Copy + std::ops::Sub<Output = S>> MouseDrag<S> {
    /// Returns a copy of the drag with its start and end relative to `xy`.
    pub fn relative_to(&self, xy: [S; 2]) -> (r: Self)
        requires
            point_sub_ok(self.start, xy),
            point_sub_ok(self.end, xy),
        ensures
            S::obeys_sub_spec() ==> r == (MouseDrag {
                start: relative_point(self.start, xy),
                end: relative_point(self.end, xy),
                ..*self
            }),
            r.button == self.button,
            r.modifier == self.modifier,
            r.in_progress == self.in_progress,
    {
        MouseDrag {
            button: self.button,
            start: [self.start[0] - xy[0], self.start[1] - xy[1]],
            end: [self.end[0] - xy[0], self.end[1] - xy[1]],
            modifier: self.modifier,
            in_progress: self.in_progress,
        }
    }
}

impl<S: Copy + std::ops::Sub<Output = S>, X: Copy> Input<S, X> {
    /// Returns a copy of the input with its mouse position relative to `xy` (see
    /// `relative_input`).
    pub fn relative_to(&self, xy: [S; 2]) -> (r: Self)
        requires
            input_sub_ok(*self, xy),
        ensures
            S::obeys_sub_spec() ==> r == relative_input(*self, xy),
            !(*self matches Input::Move(Motion::MouseRelative(_, _))) && !(*self matches Input::Move(
                Motion::MouseCursor(_, _),
            )) ==> r == *self,
            (*self matches Input::Move(Motion::MouseRelative(_, _))) ==> (r matches Input::Move(
                Motion::MouseRelative(_, _),
            )),
            (*self matches Input::Move(Motion::MouseCursor(_, _))) ==> (r matches Input::Move(
                Motion::MouseCursor(_, _),
            )),
    {
        match self {
            Input::Move(Motion::MouseRelative(x, y)) => Input::Move(Motion::MouseRelative(*x - xy[0], *y - xy[1])),
            Input::Move(Motion::MouseCursor(x, y)) => Input::Move(Motion::MouseCursor(*x - xy[0], *y - xy[1])),
            _ => copy_input(self),
        }
    }
}

impl<S: Copy + std::ops::Sub<Output = S>, X: Copy> UiEvent<S, X> {
    /// Returns `true` if this event is related to the mouse (see `is_mouse_event_spec`). A
    /// `UiEvent::Scroll` is considered to be both a mouse and a keyboard event.
    pub fn is_mouse_event(&self) -> (r: bool)
        ensures
            r == is_mouse_event_spec(*self),
    {
        match self {
            UiEvent::Raw(Input::Press(Button::Mouse(_))) => true,
            UiEvent::Raw(Input::Release(Button::Mouse(_))) => true,
            UiEvent::Raw(Input::Move(Motion::MouseCursor(_, _))) => true,
            UiEvent::Raw(Input::Move(Motion::MouseRelative(_, _))) => true,
            UiEvent::Raw(Input::Move(Motion::MouseScroll(_, _))) => true,
            UiEvent::MouseClick(_) => true,
            UiEvent::MouseDrag(_) => true,
            UiEvent::Scroll(_) => true,
            _ => false,
        }
    }

    /// Returns `true` if this event is related to the keyboard (see `is_keyboard_event_spec`).
    /// A `UiEvent::Scroll` is considered to be both a mouse and a keyboard event.
    pub fn is_keyboard_event(&self) -> (r: bool)
        ensures
            r == is_keyboard_event_spec(*self),
    {
        match self {
            UiEvent::Raw(Input::Press(Button::Keyboard(_))) => true,
            UiEvent::Raw(Input::Release(Button::Keyboard(_))) => true,
            UiEvent::Raw(Input::Text(_)) => true,
            UiEvent::Scroll(_) => true,
            _ => false,
        }
    }

    /// Returns a copy of the event with its positions relative to `xy` (see `relative_event`).
    pub fn relative_to(&self, xy: [S; 2]) -> (r: Self)
        requires
            event_sub_ok(*self, xy),
        ensures
            S::obeys_sub_spec() ==> r == relative_event(*self, xy),
            !has_position(*self) ==> r == *self,
            is_mouse_event_spec(r) == is_mouse_event_spec(*self),
            is_keyboard_event_spec(r) == is_keyboard_event_spec(*self),
    {
        match self {
            UiEvent::MouseClick(c) => UiEvent::MouseClick(c.relative_to(xy)),
            UiEvent::MouseDrag(d) => UiEvent::MouseDrag(d.relative_to(xy)),
            UiEvent::Raw(input) => UiEvent::Raw(input.relative_to(xy)),
            UiEvent::Scroll(s) => UiEvent::Scroll(*s),
            UiEvent::WidgetCapturesMouse(i) => UiEvent::WidgetCapturesMouse(*i),
            UiEvent::WidgetUncapturesMouse(i) => UiEvent::WidgetUncapturesMouse(*i),
            UiEvent::WidgetCapturesKeyboard(i) => UiEvent::WidgetCapturesKeyboard(*i),
            UiEvent::WidgetUncapturesKeyboard(i) => UiEvent::WidgetUncapturesKeyboard(*i),
        }
    }
}

/// A copy of the raw input.
pub fn copy_input<S: Copy, X: Copy>(input: &Input<S, X>) -> (r: Input<S, X>)
    ensures
        r == *input,
{
    match input {
        Input::Press(b) => Input::Press(*b),
        Input::Release(b) => Input::Release(*b),
        Input::Move(m) => Input::Move(*m),
        Input::Text(t) => Input::Text(t.clone()),
        Input::Resize(w, h) => Input::Resize(*w, *h),
        Input::Focus(f) => Input::Focus(*f),
        Input::Cursor(c) => Input::Cursor(*c),
        Input::Other(x) => Input::Other(*x),
    }
}

/// A scroll is both a mouse and a keyboard event; a key press is a keyboard event and not a
/// mouse event; a mouse button press is a mouse event and not a keyboard event.
pub proof fn law_event_kinds<S, X>(scroll: Scroll<S>, key: u32, button: MouseButton)
    ensures
        is_mouse_event_spec(UiEvent::<S, X>::Scroll(scroll)),
        is_keyboard_event_spec(UiEvent::<S, X>::Scroll(scroll)),
        is_keyboard_event_spec(UiEvent::<S, X>::Raw(Input::Press(Button::Keyboard(key)))),
        !is_mouse_event_spec(UiEvent::<S, X>::Raw(Input::Press(Button::Keyboard(key)))),
        is_mouse_event_spec(UiEvent::<S, X>::Raw(Input::Press(Button::Mouse(button)))),
        !is_keyboard_event_spec(UiEvent::<S, X>::Raw(Input::Press(Button::Mouse(button)))),
{
}

} // verus!
