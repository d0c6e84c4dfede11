//! The rectangle that most widgets are drawn on, and its states.

use vstd::prelude::*;

verus! {

/// Represents the state of a rectangular widget.
#[derive(Clone, Copy, Debug, PartialEq, Eq, Structural)]
pub enum State {
    /// Neither hovered nor pressed.
    Normal,
    /// The mouse is over the widget.
    Highlighted,
    /// The widget is being pressed.
    Clicked,
}

/// A corner of a rectangle.
#[derive(Clone, Copy, Debug, PartialEq, Eq, Structural)]
pub enum Corner {
    /// The top left corner.
    TopLeft,
    /// The top right corner.
    TopRight,
    /// The bottom left corner.
    BottomLeft,
    /// The bottom right corner.
    BottomRight,
}

/// Which corner of a rectangle a point is within, from whether it lies past the middle of the
/// rectangle along x (to the right) and along y (towards the top). A point on a middle line
/// counts as being on the left, or the bottom, side.
pub fn corner_of_halves(right_of_middle: bool, above_middle: bool) -> (r: Corner)
    ensures
        r == (match (right_of_middle, above_middle) {
            (false, false) => Corner::BottomLeft,
            (true, false) => Corner::BottomRight,
            (false, true) => Corner::TopLeft,
            (true, true) => Corner::TopRight,
        }),
{
    if !right_of_middle && !above_middle {
        Corner::BottomLeft
    } else if right_of_middle && !above_middle {
        Corner::BottomRight
    } else if !right_of_middle && above_middle {
        Corner::TopLeft
    } else {
        Corner::TopRight
    }
}

} // verus!
