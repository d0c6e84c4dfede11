//! Simplified mouse events, for widgets that only need clicks, drags and scrolls.
//!
//! `S` is the scalar type of positions and scroll amounts; a position is a `[S; 2]`. `T` is the
//! type of the instants at which buttons were pressed, read from a clock by the caller.

use vstd::prelude::*;
use crate::events::mouse_button::MouseButton;
use crate::events::ui_event::{point_sub_ok, relative_point};
use vstd::std_specs::ops::SubSpec;

verus! {

/// Used for simplified mouse event handling. Most widgets can probably just use these events.
#[derive(Clone, Copy, Debug, PartialEq)]
pub enum SimpleMouseEvent<S, T> {
    /// Indicates that the mouse was clicked. A Click event is created when the mouse button is
    /// released, not depressed.
    Click(MouseClick<S>),
    /// Drag event is created when the mouse was moved over a certain threshold while a button
    /// was depressed.
    Drag(MouseDragEvent<S, T>),
    /// The mouse wheel was scrolled.
    Scroll(Scroll<S>),
}

/// A click of a mouse button.
#[derive(Clone, Copy, Debug, PartialEq)]
pub struct MouseClick<S> {
    /// Indicates which button was clicked.
    pub mouse_button: MouseButton,
    /// The point describing the click location.
    pub position: [S; 2],
}

/// A drag of the mouse with a button held down.
#[derive(Clone, Copy, Debug, PartialEq)]
pub struct MouseDragEvent<S, T> {
    /// Which mouse button is being held during the drag.
    pub mouse_button: MouseButton,
    /// The time and location where the drag was initiated (when the button was pressed).
    pub start: MouseButtonDown<S, T>,
    /// The current time and location of the mouse.
    pub current: MouseButtonDown<S, T>,
    /// This will be false if the button is still being held down, or true if the button was
    /// released.
    pub button_released: bool,
}

/// When and where a mouse button was pressed.
#[derive(Clone, Copy, Debug, PartialEq)]
pub struct MouseButtonDown<S, T> {
    /// The time that the mouse button was pressed.
    pub time: T,
    /// The location of the mouse when the button was pressed.
    pub position: [S; 2],
}

/// The amount of scrolling of the mouse wheel.
#[derive(Clone, Copy, Debug, PartialEq)]
pub struct Scroll<S> {
    /// Scrolling across the x axis.
    pub x: S,
    /// Scrolling across the y axis.
    pub y: S,
}

/// Whether every position of the event can be made relative to `xy`.
pub open spec fn simple_event_sub_ok<S: std::ops::Sub<Output = S>, T>(
    e: SimpleMouseEvent<S, T>,
    xy: [S; 2],
) -> bool {
    match e {
        SimpleMouseEvent::Click(c) => point_sub_ok(c.position, xy),
        SimpleMouseEvent::Drag(d) => point_sub_ok(d.start.position, xy) && point_sub_ok(d.current.position, xy),
        SimpleMouseEvent::Scroll(_) => true,
    }
}

/// The event with its positions made relative to `xy`: the location of a click, and the start
/// and current positions of a drag. A scroll holds no position and is unchanged.
pub open spec fn relative_simple_event<S: std::ops::Sub<Output = S>, T>(
    e: SimpleMouseEvent<S, T>,
    xy: [S; 2],
) -> SimpleMouseEvent<S, T> {
    match e {
        SimpleMouseEvent::Click(c) => SimpleMouseEvent::Click(
            MouseClick { position: relative_point(c.position, xy), ..c },
        ),
        SimpleMouseEvent::Drag(d) => SimpleMouseEvent::Drag(
            MouseDragEvent {
                start: MouseButtonDown { position: relative_point(d.start.position, xy), ..d.start },
                current: MouseButtonDown {
                    position: relative_point(d.current.position, xy),
                    ..d.current
                },
                ..d
            },
        ),
        SimpleMouseEvent::Scroll(_) => e,
    }
}

impl<S: Copy + std::ops::Sub<Output = S>> MouseClick<S> {
    /// Returns a new copy of the event data relative to the given point.
    pub fn relative_to(&self, xy: [S; 2]) -> (r: Self)
        requires
            point_sub_ok(self.position, xy),
        ensures
            S::obeys_sub_spec() ==> r == (MouseClick { position: relative_point(self.position, xy), ..*self }),
            r.mouse_button == self.mouse_button,
    {
        MouseClick {
            mouse_button: self.mouse_button,
            position: [self.position[0] - xy[0], self.position[1] - xy[1]],
        }
    }
}

impl<S: Copy + std::ops::Sub<Output = S>, T: Copy> MouseButtonDown<S, T> {
    /// Returns a new copy of the event data relative to the given point.
    pub fn relative_to(&self, xy: [S; 2]) -> (r: Self)
        requires
            point_sub_ok(self.position, xy),
        ensures
            S::obeys_sub_spec() ==> r == (MouseButtonDown { position: relative_point(self.position, xy), ..*self }),
            r.time == self.time,
    {
        MouseButtonDown {
            time: self.time,
            position: [self.position[0] - xy[0], self.position[1] - xy[1]],
        }
    }
}

impl<S: Copy + std::ops::Sub<Output = S>, T: Copy> MouseDragEvent<S, T> {
    /// Returns a new copy of the event data relative to the given point.
    pub fn relative_to(&self, xy: [S; 2]) -> (r: Self)
        requires
            point_sub_ok(self.start.position, xy),
            point_sub_ok(self.current.position, xy),
        ensures
            S::obeys_sub_spec() ==> r == (MouseDragEvent {
                start: MouseButtonDown { position: relative_point(self.start.position, xy), ..self.start },
                current: MouseButtonDown {
                    position: relative_point(self.current.position, xy),
                    ..self.current
                },
                ..*self
            }),
            r.mouse_button == self.mouse_button,
            r.button_released == self.button_released,
            r.start.time == self.start.time,
            r.current.time == self.current.time,
    {
        MouseDragEvent {
            mouse_button: self.mouse_button,
            start: self.start.relative_to(xy),
            current: self.current.relative_to(xy),
            button_released: self.button_released,
        }
    }
}

impl<S: Copy + std::ops::Sub<Output = S>, T: Copy> SimpleMouseEvent<S, T> {
    /// Returns a new copy of the event data relative to the given point.
    pub fn relative_to(&self, xy: [S; 2]) -> (r: Self)
        requires
            simple_event_sub_ok(*self, xy),
        ensures
            S::obeys_sub_spec() ==> r == relative_simple_event(*self, xy),
            (*self is Click) == (r is Click),
            (*self is Drag) == (r is Drag),
            *self is Scroll ==> r == *self,
    {
        match self {
            SimpleMouseEvent::Click(c) => SimpleMouseEvent::Click(c.relative_to(xy)),
            SimpleMouseEvent::Drag(d) => SimpleMouseEvent::Drag(d.relative_to(xy)),
            SimpleMouseEvent::Scroll(s) => SimpleMouseEvent::Scroll(*s),
        }
    }
}

} // verus!
