//! The buttons of a mouse and their numbering.

use vstd::prelude::*;

verus! {

/// The max total number of buttons on a mouse.
pub const NUM_MOUSE_BUTTONS: usize = 9;

/// A button of a mouse.
#[derive(Clone, Copy, Debug, PartialEq, Eq, Structural, Hash)]
pub enum MouseButton {
    /// Unknown mouse button.
    Unknown,
    /// Left mouse button.
    Left,
    /// Right mouse button.
    Right,
    /// Middle mouse button.
    Middle,
    /// Extra mouse button number 1.
    X1,
    /// Extra mouse button number 2.
    X2,
    /// Mouse button number 6.
    Button6,
    /// Mouse button number 7.
    Button7,
    /// Mouse button number 8.
    Button8,
}

/// The number of a mouse button: `Unknown` is 0, then `Left`, `Right`, `Middle`, `X1`, `X2` and
/// `Button6` to `Button8` count up to 8.
pub open spec fn button_number(b: MouseButton) -> nat {
    match b {
        MouseButton::Unknown => 0,
        MouseButton::Left => 1,
        MouseButton::Right => 2,
        MouseButton::Middle => 3,
        MouseButton::X1 => 4,
        MouseButton::X2 => 5,
        MouseButton::Button6 => 6,
        MouseButton::Button7 => 7,
        MouseButton::Button8 => 8,
    }
}

/// The mouse button with the given number; numbers above 8 give `Unknown`.
pub open spec fn button_of_number(n: int) -> MouseButton {
    if n == 1 {
        MouseButton::Left
    } else if n == 2 {
        MouseButton::Right
    } else if n == 3 {
        MouseButton::Middle
    } else if n == 4 {
        MouseButton::X1
    } else if n == 5 {
        MouseButton::X2
    } else if n == 6 {
        MouseButton::Button6
    } else if n == 7 {
        MouseButton::Button7
    } else if n == 8 {
        MouseButton::Button8
    } else {
        MouseButton::Unknown
    }
}

impl MouseButton {
    /// The number of the button (see `button_number`).
    pub fn number(self) -> (r: u32)
        ensures
            r == button_number(self),
    {
        match self {
            MouseButton::Unknown => 0,
            MouseButton::Left => 1,
            MouseButton::Right => 2,
            MouseButton::Middle => 3,
            MouseButton::X1 => 4,
            MouseButton::X2 => 5,
            MouseButton::Button6 => 6,
            MouseButton::Button7 => 7,
            MouseButton::Button8 => 8,
        }
    }

    /// The button with the given number (see `button_of_number`).
    pub fn from_number(n: u32) -> (r: MouseButton)
        ensures
            r == button_of_number(n as int),
    {
        match n {
            1 => MouseButton::Left,
            2 => MouseButton::Right,
            3 => MouseButton::Middle,
            4 => MouseButton::X1,
            5 => MouseButton::X2,
            6 => MouseButton::Button6,
            7 => MouseButton::Button7,
            8 => MouseButton::Button8,
            _ => MouseButton::Unknown,
        }
    }
}

/// Numbering a button and turning the number back into a button gives the same button, and
/// every number is below the count of mouse buttons.
pub proof fn law_number_round_trip(b: MouseButton)
    ensures
        button_of_number(button_number(b) as int) == b,
        button_number(b) < NUM_MOUSE_BUTTONS,
{
}

} // verus!
