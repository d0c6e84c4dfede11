//! The state of every mouse button: up, or down at the position where it was pressed.

use vstd::prelude::*;
use crate::events::mouse_button::{
    MouseButton, NUM_MOUSE_BUTTONS, button_number, button_of_number,
};

verus! {

/// Stores the state of all mouse buttons. If the mouse button is down, it stores the position
/// `P` of the mouse when the button was pressed.
#[derive(Clone, Copy, Debug, PartialEq)]
pub struct ButtonMap<P> {
    button_states: [Option<P>; NUM_MOUSE_BUTTONS],
}

impl<P> View for ButtonMap<P> {
    type V = Seq<Option<P>>;

    /// The state of each button, indexed by the button's number.
    closed spec fn view(&self) -> Seq<Option<P>> {
        self.button_states@
    }
}

/// The index of the first pressed button in `states`, or the length of `states` if none is
/// pressed.
pub open spec fn first_pressed<P>(states: Seq<Option<P>>) -> int
    decreases states.len(),
{
    if states.len() == 0 {
        0
    } else if states[0] is Some {
        0
    } else {
        1 + first_pressed(states.drop_first())
    }
}

/// What `pressed_button` returns for the given states.
pub open spec fn pressed_button_result<P>(states: Seq<Option<P>>) -> Option<(MouseButton, P)> {
    let i = first_pressed(states);
    if i < states.len() {
        Some((button_of_number(i), states[i]->0))
    } else {
        None
    }
}

/// `first_pressed` is the first index holding a pressed button.
pub proof fn lemma_first_pressed<P>(states: Seq<Option<P>>)
    ensures
        0 <= first_pressed(states) <= states.len(),
        first_pressed(states) < states.len() ==> states[first_pressed(states)] is Some,
        forall|j: int| 0 <= j < first_pressed(states) ==> #[trigger] states[j] is None,
    decreases states.len(),
{
    if states.len() > 0 && states[0] is None {
        lemma_first_pressed(states.drop_first());
        assert forall|j: int| 0 <= j < first_pressed(states) implies #[trigger] states[j] is None by {
            if j > 0 {
                assert(states[j] == states.drop_first()[j - 1]);
            }
        }
    }
}

/// Any index whose earlier entries are all up and which holds a pressed button is
/// `first_pressed`.
proof fn lemma_first_pressed_at<P>(states: Seq<Option<P>>, i: int)
    requires
        0 <= i < states.len(),
        states[i] is Some,
        forall|j: int| 0 <= j < i ==> #[trigger] states[j] is None,
    ensures
        first_pressed(states) == i,
    decreases i,
{
    if i > 0 {
        assert forall|j: int| 0 <= j < i - 1 implies #[trigger] states.drop_first()[j] is None by {
            assert(states[j + 1] is None);
        }
        lemma_first_pressed_at(states.drop_first(), i - 1);
    }
}

/// `first_pressed` of states with no button pressed is their length.
proof fn lemma_first_pressed_none<P>(states: Seq<Option<P>>)
    requires
        forall|j: int| 0 <= j < states.len() ==> #[trigger] states[j] is None,
    ensures
        first_pressed(states) == states.len(),
    decreases states.len(),
{
    if states.len() > 0 {
        assert forall|j: int| 0 <= j < states.len() - 1 implies #[trigger] states.drop_first()[j] is None by {
            assert(states[j + 1] is None);
        }
        lemma_first_pressed_none(states.drop_first());
    }
}

impl<P: Copy> ButtonMap<P> {
    /// Returns a new button map with all states set to `None`.
    pub fn new() -> (r: Self)
        ensures
            r@ == Seq::new(NUM_MOUSE_BUTTONS as nat, |i: int| None::<P>),
    {
        let r = ButtonMap { button_states: [None; NUM_MOUSE_BUTTONS] };
        assert(r@ =~= Seq::new(NUM_MOUSE_BUTTONS as nat, |i: int| None::<P>));
        r
    }

    /// A map holds a state for each of the mouse buttons.
    pub proof fn lemma_len(&self)
        ensures
            self@.len() == NUM_MOUSE_BUTTONS,
    {
    }

    /// Sets the state of a specific `MouseButton`.
    pub fn set(&mut self, button: MouseButton, point: Option<P>)
        ensures
            final(self)@ == old(self)@.update(button_number(button) as int, point),
    {
        let idx = Self::button_idx(button);
        self.button_states[idx] = point;
    }

    /// Returns the state of a mouse button.
    pub fn get(&self, button: MouseButton) -> (r: Option<P>)
        ensures
            r == self@[button_number(button) as int],
    {
        self.button_states[Self::button_idx(button)]
    }

    /// Returns the current state of a mouse button, leaving `None` in its place.
    pub fn take(&mut self, button: MouseButton) -> (r: Option<P>)
        ensures
            r == old(self)@[button_number(button) as int],
            final(self)@ == old(self)@.update(button_number(button) as int, None),
    {
        let idx = Self::button_idx(button);
        let r = self.button_states[idx];
        self.button_states[idx] = None;
        r
    }

    /// If any mouse buttons are currently pressed, returns the first of them in the order of
    /// their numbers, together with the position of the mouse when it was pressed.
    pub fn pressed_button(&self) -> (r: Option<(MouseButton, P)>)
        ensures
            r == pressed_button_result(self@),
    {
        let mut i: usize = 0;
        while i < NUM_MOUSE_BUTTONS
            invariant
                i <= NUM_MOUSE_BUTTONS,
                self@.len() == NUM_MOUSE_BUTTONS,
                forall|j: int| 0 <= j < i ==> #[trigger] self@[j] is None,
            decreases NUM_MOUSE_BUTTONS - i,
        {
            if let Some(p) = self.button_states[i] {
                proof {
                    lemma_first_pressed_at(self@, i as int);
                }
                return Some((Self::idx_to_button(i), p));
            }
            i = i + 1;
        }
        proof {
            lemma_first_pressed_none(self@);
        }
        None
    }

    fn idx_to_button(idx: usize) -> (r: MouseButton)
        requires
            idx < NUM_MOUSE_BUTTONS,
        ensures
            r == button_of_number(idx as int),
    {
        MouseButton::from_number(idx as u32)
    }

    fn button_idx(button: MouseButton) -> (r: usize)
        ensures
            r == button_number(button),
            r < NUM_MOUSE_BUTTONS,
    {
        button.number() as usize
    }
}

/// Setting a button's state and reading it back gives the state that was set, and leaves the
/// other buttons as they were.
pub proof fn law_get_after_set<P>(states: Seq<Option<P>>, button: MouseButton, point: Option<P>, other: MouseButton)
    requires
        states.len() == NUM_MOUSE_BUTTONS,
    ensures
        states.update(button_number(button) as int, point)[button_number(button) as int] == point,
        other != button ==> states.update(button_number(button) as int, point)[button_number(other) as int]
            == states[button_number(other) as int],
{
}

/// A map with no button pressed reports no pressed button; a map with some button pressed
/// reports the pressed button with the lowest number, at its position.
pub proof fn law_pressed_button_is_first<P>(states: Seq<Option<P>>, button: MouseButton)
    requires
        states.len() == NUM_MOUSE_BUTTONS,
        states[button_number(button) as int] is Some,
        forall|j: int| 0 <= j < button_number(button) ==> #[trigger] states[j] is None,
    ensures
        pressed_button_result(states) == Some((button, states[button_number(button) as int]->0)),
{
    lemma_first_pressed_at(states, button_number(button) as int);
}

} // verus!
