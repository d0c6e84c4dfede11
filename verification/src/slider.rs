//! The slider widget's states: how the mouse moves a slider between normal, highlighted and clicked.

use vstd::prelude::*;
use crate::mouse_state::{MouseButtonState, MouseState};
use crate::rectangle;

verus! {

/// Represents the state of the Slider widget.
#[derive(Clone, Copy, Debug, PartialEq, Eq, Structural)]
pub enum State {
    /// Neither hovered nor pressed.
    Normal,
    /// The mouse is over the widget.
    Highlighted,
    /// The widget is being pressed.
    Clicked,
}

impl State {
    /// Return the associated Rectangle state.
    pub fn as_rectangle_state(&self) -> (r: rectangle::State)
        ensures
            r == (match *self {
                State::Normal => rectangle::State::Normal,
                State::Highlighted => rectangle::State::Highlighted,
                State::Clicked => rectangle::State::Clicked,
            }),
    {
        match self {
            State::Normal => rectangle::State::Normal,
            State::Highlighted => rectangle::State::Highlighted,
            State::Clicked => rectangle::State::Clicked,
        }
    }
}

/// The state that follows `prev` when the mouse is over the widget or not (`is_over`) and its
/// left button is `left`: a press that starts off the widget (from `Normal`) does not click it;
/// a press over the widget after a hover clicks it; a click holds while the button stays down,
/// even off the widget; releasing over the widget highlights it; anything else is `Normal`.
pub open spec fn next_state(is_over: bool, prev: State, left: MouseButtonState) -> State {
    match (is_over, prev, left) {
        (true, State::Normal, MouseButtonState::Down) => State::Normal,
        (true, _, MouseButtonState::Down) => State::Clicked,
        (true, _, MouseButtonState::Up) => State::Highlighted,
        (false, State::Clicked, MouseButtonState::Down) => State::Clicked,
        _ => State::Normal,
    }
}

/// Check and return the current state of the Slider.
pub fn get_new_state<P>(is_over: bool, prev: State, mouse: MouseState<P>) -> (r: State)
    ensures
        r == next_state(is_over, prev, mouse.left),
{
    match (is_over, prev, mouse.left) {
        (true, State::Normal, MouseButtonState::Down) => State::Normal,
        (true, _, MouseButtonState::Down) => State::Clicked,
        (true, _, MouseButtonState::Up) => State::Highlighted,
        (false, State::Clicked, MouseButtonState::Down) => State::Clicked,
        _ => State::Normal,
    }
}

/// The widget is clicked only by a press over it that follows a hover or a click: from
/// `Normal` no single step reaches `Clicked`, and hovering then pressing does.
pub proof fn law_click_needs_hover(is_over: bool, left: MouseButtonState)
    ensures
        next_state(is_over, State::Normal, left) != State::Clicked,
        next_state(true, next_state(true, State::Normal, MouseButtonState::Up), MouseButtonState::Down)
            == State::Clicked,
{
}

/// Once clicked, the widget stays clicked for as long as the button is held down, wherever the
/// mouse goes; releasing the button leaves `Clicked`.
pub proof fn law_click_holds_while_down(is_over: bool)
    ensures
        next_state(is_over, State::Clicked, MouseButtonState::Down) == State::Clicked,
        next_state(is_over, State::Clicked, MouseButtonState::Up) != State::Clicked,
{
}

} // verus!
