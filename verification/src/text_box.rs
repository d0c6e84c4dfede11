//! The text box widget's states: hovering, pressing, and capturing the keyboard with a cursor
//! placed in the text.
//!
//! `C` is the type of the cursor's x position.

use vstd::prelude::*;
use crate::mouse_state::{MouseButtonState, MouseState};
use crate::rectangle;

verus! {

/// An index of a character within the text.
pub type Idx = usize;

/// Represents the state of the text_box widget.
#[derive(Clone, Copy, Debug, PartialEq)]
pub struct State<C>(pub DrawState<C>, pub Capturing<C>);

/// Represents the next tier of state.
#[derive(Clone, Copy, Debug, PartialEq)]
pub enum DrawState<C> {
    /// Neither hovered nor pressed.
    Normal,
    /// The mouse is over the given element.
    Highlighted(Element<C>),
    /// The given element is being pressed.
    Clicked(Element<C>),
}

/// Whether the textbox is currently captured or not.
#[derive(Clone, Copy, Debug, PartialEq)]
pub enum Capturing<C> {
    /// The text box does not have the keyboard.
    Uncaptured,
    /// The text box has the keyboard, with the cursor before the character at the index, at
    /// the given x position.
    Captured(Idx, C),
}

/// Represents an element of the TextBox widget.
#[derive(Clone, Copy, Debug, PartialEq)]
pub enum Element<C> {
    /// Nothing of the text box.
    Nill,
    /// The box around the text.
    Rect,
    /// The text, at the character with the given index, whose left edge is at the given x.
    Text(Idx, C),
}

impl<C> State<C> {
    /// Return the associated Rectangle state: a captured text box is drawn normally, otherwise
    /// as its draw state says.
    pub fn as_rectangle_state(&self) -> (r: rectangle::State)
        ensures
            r == (match (self.1, self.0) {
                (Capturing::Captured(_, _), _) => rectangle::State::Normal,
                (Capturing::Uncaptured, DrawState::Normal) => rectangle::State::Normal,
                (Capturing::Uncaptured, DrawState::Highlighted(_)) => rectangle::State::Highlighted,
                (Capturing::Uncaptured, DrawState::Clicked(_)) => rectangle::State::Clicked,
            }),
    {
        match &self.1 {
            Capturing::Captured(_, _) => rectangle::State::Normal,
            Capturing::Uncaptured => match &self.0 {
                DrawState::Normal => rectangle::State::Normal,
                DrawState::Highlighted(_) => rectangle::State::Highlighted,
                DrawState::Clicked(_) => rectangle::State::Clicked,
            },
        }
    }
}

/// The state that follows `prev` when the mouse is over the element `over` with its left
/// button `left`. Pressing and releasing over the text captures the keyboard, with the cursor at
/// the character under the mouse; while captured, pressing and releasing off the text box
/// releases it; otherwise the draw state follows the mouse as for a button.
pub open spec fn next_state<C>(over: Element<C>, prev: State<C>, left: MouseButtonState) -> State<
    C,
> {
    match prev {
        State(draw, Capturing::Uncaptured) => match (over, draw, left) {
            (_, DrawState::Normal, MouseButtonState::Down) => State(
                DrawState::Normal,
                Capturing::Uncaptured,
            ),
            (Element::Nill, DrawState::Normal, MouseButtonState::Up) | (
                Element::Nill,
                DrawState::Highlighted(_),
                MouseButtonState::Up,
            ) => State(DrawState::Normal, Capturing::Uncaptured),
            (_, DrawState::Normal, MouseButtonState::Up) | (
                _,
                DrawState::Highlighted(_),
                MouseButtonState::Up,
            ) => State(DrawState::Highlighted(over), Capturing::Uncaptured),
            (_, DrawState::Highlighted(p), MouseButtonState::Down) | (
                _,
                DrawState::Clicked(p),
                MouseButtonState::Down,
            ) => State(DrawState::Clicked(p), Capturing::Uncaptured),
            (
                Element::Text(idx, x),
                DrawState::Clicked(Element::Text(_, _)),
                MouseButtonState::Up,
            ) => State(DrawState::Highlighted(over), Capturing::Captured(idx, x)),
            (Element::Nill, _, _) => State(DrawState::Normal, Capturing::Uncaptured),
            _ => prev,
        },
        State(draw, Capturing::Captured(p_idx, p_x)) => match (over, draw, left) {
            (Element::Nill, DrawState::Clicked(Element::Nill), MouseButtonState::Up) => State(
                DrawState::Normal,
                Capturing::Uncaptured,
            ),
            (
                Element::Text(idx, x),
                DrawState::Clicked(Element::Text(_, _)),
                MouseButtonState::Up,
            ) => State(DrawState::Highlighted(over), Capturing::Captured(idx, x)),
            (_, DrawState::Normal, MouseButtonState::Up) | (
                _,
                DrawState::Highlighted(_),
                MouseButtonState::Up,
            ) | (_, DrawState::Clicked(_), MouseButtonState::Up) => State(
                DrawState::Highlighted(over),
                Capturing::Captured(p_idx, p_x),
            ),
            (_, DrawState::Highlighted(p), MouseButtonState::Down) | (
                _,
                DrawState::Clicked(p),
                MouseButtonState::Down,
            ) => State(DrawState::Clicked(p), Capturing::Captured(p_idx, p_x)),
            _ => prev,
        },
    }
}

/// Check and return the current state of the TextBox (see `next_state`).
pub fn get_new_state<C: Copy, P>(over_elem: Element<C>, prev_box_state: State<C>, mouse: MouseState<P>) -> (r: State<C>)
    ensures
        r == next_state(over_elem, prev_box_state, mouse.left),
{
    match prev_box_state {
        State(prev, Capturing::Uncaptured) => match (over_elem, prev, mouse.left) {
            (_, DrawState::Normal, MouseButtonState::Down) => State(
                DrawState::Normal,
                Capturing::Uncaptured,
            ),
            (Element::Nill, DrawState::Normal, MouseButtonState::Up) | (
                Element::Nill,
                DrawState::Highlighted(_),
                MouseButtonState::Up,
            ) => State(DrawState::Normal, Capturing::Uncaptured),
            (_, DrawState::Normal, MouseButtonState::Up) | (
                _,
                DrawState::Highlighted(_),
                MouseButtonState::Up,
            ) => State(DrawState::Highlighted(over_elem), Capturing::Uncaptured),
            (_, DrawState::Highlighted(p_elem), MouseButtonState::Down) | (
                _,
                DrawState::Clicked(p_elem),
                MouseButtonState::Down,
            ) => State(DrawState::Clicked(p_elem), Capturing::Uncaptured),
            (
                Element::Text(idx, x),
                DrawState::Clicked(Element::Text(_, _)),
                MouseButtonState::Up,
            ) => State(DrawState::Highlighted(over_elem), Capturing::Captured(idx, x)),
            (Element::Nill, _, _) => State(DrawState::Normal, Capturing::Uncaptured),
            _ => prev_box_state,
        },
        State(prev, Capturing::Captured(p_idx, p_x)) => match (over_elem, prev, mouse.left) {
            (Element::Nill, DrawState::Clicked(Element::Nill), MouseButtonState::Up) => State(
                DrawState::Normal,
                Capturing::Uncaptured,
            ),
            (
                Element::Text(idx, x),
                DrawState::Clicked(Element::Text(_, _)),
                MouseButtonState::Up,
            ) => State(DrawState::Highlighted(over_elem), Capturing::Captured(idx, x)),
            (_, DrawState::Normal, MouseButtonState::Up) | (
                _,
                DrawState::Highlighted(_),
                MouseButtonState::Up,
            ) | (_, DrawState::Clicked(_), MouseButtonState::Up) => State(
                DrawState::Highlighted(over_elem),
                Capturing::Captured(p_idx, p_x),
            ),
            (_, DrawState::Highlighted(p_elem), MouseButtonState::Down) | (
                _,
                DrawState::Clicked(p_elem),
                MouseButtonState::Down,
            ) => State(DrawState::Clicked(p_elem), Capturing::Captured(p_idx, p_x)),
            _ => prev_box_state,
        },
    }
}

/// Pressing over the text and releasing over the text captures the keyboard, with the cursor at
/// the character where the button was released.
pub proof fn law_click_on_text_captures<C>(
    state: State<C>,
    i: Idx,
    x: C,
    j: Idx,
    y: C,
)
    requires
        state.0 matches DrawState::Highlighted(_),
    ensures
        ({
            let pressed = next_state(Element::Text(i, x), state, MouseButtonState::Down);
            let released = next_state(Element::Text(j, y), pressed, MouseButtonState::Up);
            &&& pressed.0 matches DrawState::Clicked(_)
            &&& (state.0 matches DrawState::Highlighted(Element::Text(_, _))) ==> released
                == State(DrawState::Highlighted(Element::Text(j, y)), Capturing::Captured(j, y))
        }),
{
}

/// A captured text box stays captured while the mouse does anything but press and release off
/// the text box: a release over nothing after a press that began over nothing is what
/// uncaptures it.
pub proof fn law_capture_released_only_off_box<C>(
    over: Element<C>,
    draw: DrawState<C>,
    i: Idx,
    x: C,
    left: MouseButtonState,
)
    ensures
        next_state(over, State(draw, Capturing::Captured(i, x)), left).1 is Uncaptured <==> (
        over == Element::<C>::Nill && draw == DrawState::Clicked(Element::<C>::Nill) && left
            == MouseButtonState::Up),
{
}

} // verus!
