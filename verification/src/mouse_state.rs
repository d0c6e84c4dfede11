//! The state of the mouse as the widgets read it.

use vstd::prelude::*;

verus! {

/// Represents the current state of a mouse button.
#[derive(Clone, Copy, Debug, PartialEq, Eq, Structural)]
pub enum MouseButtonState {
    /// The button is up.
    Up,
    /// The button is down.
    Down,
}

/// Represents the current state of the mouse, with its position of type `P`.
#[derive(Clone, Copy, Debug)]
pub struct MouseState<P> {
    /// The position of the mouse.
    pub pos: P,
    /// The state of the left button.
    pub left: MouseButtonState,
    /// The state of the middle button.
    pub middle: MouseButtonState,
    /// The state of the right button.
    pub right: MouseButtonState,
}

impl<P> MouseState<P> {
    /// Constructor for a `MouseState`.
    pub fn new(
        pos: P,
        left: MouseButtonState,
        middle: MouseButtonState,
        right: MouseButtonState,
    ) -> (r: MouseState<P>)
        ensures
            r == (MouseState { pos, left, middle, right }),
    {
        MouseState { pos, left, middle, right }
    }
}

} // verus!
