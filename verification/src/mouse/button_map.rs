//! The state of each mouse button, held by the `Mouse`.

use vstd::prelude::*;
use crate::events::mouse_button::{MouseButton, NUM_MOUSE_BUTTONS, button_number, button_of_number};
use crate::mouse::{ButtonState, initial_button_state};
use crate::mouse::simple_events::{SimpleMouseEvent, relative_simple_event, simple_event_sub_ok};
use vstd::std_specs::ops::SubSpec;

verus! {

/// A map of `MouseButton` to `ButtonState`. Used by the `Mouse` to hold the state of all mouse
/// buttons.
#[derive(Clone, Copy, Debug)]
pub struct ButtonMap<S, T> {
    button_states: [ButtonState<S, T>; NUM_MOUSE_BUTTONS],
}

impl<S, T> View for ButtonMap<S, T> {
    type V = Seq<ButtonState<S, T>>;

    /// The state of each button, indexed by the button's number.
    closed spec fn view(&self) -> Seq<ButtonState<S, T>> {
        self.button_states@
    }
}

/// Whether the positions of the event of each state can be made relative to `xy`.
pub open spec fn states_sub_ok<S: std::ops::Sub<Output = S>, T>(states: Seq<ButtonState<S, T>>, xy: [S; 2]) -> bool {
    forall|i: int|
        0 <= i < states.len() && states[i].event is Some ==> simple_event_sub_ok(
            #[trigger] states[i].event->0,
            xy,
        )
}

/// The state with its event, if any, made relative to `xy`.
pub open spec fn relative_state<S: std::ops::Sub<Output = S>, T>(
    st: ButtonState<S, T>,
    xy: [S; 2],
) -> ButtonState<S, T> {
    ButtonState {
        event: match st.event {
            Some(e) => Some(relative_simple_event(e, xy)),
            None => None,
        },
        ..st
    }
}

impl<S: Copy, T: Copy> ButtonMap<S, T> {
    /// Returns a new button map with all states set to defaults.
    pub fn new() -> (r: Self)
        ensures
            r@ == Seq::new(NUM_MOUSE_BUTTONS as nat, |i: int| initial_button_state::<S, T>()),
    {
        let r = ButtonMap { button_states: [ButtonState::new();NUM_MOUSE_BUTTONS] };
        assert(r@ =~= Seq::new(NUM_MOUSE_BUTTONS as nat, |i: int| initial_button_state::<S, T>()));
        r
    }

    /// A map holds a state for each of the mouse buttons.
    pub proof fn lemma_len(&self)
        ensures
            self@.len() == NUM_MOUSE_BUTTONS,
    {
    }

    /// Returns a reference to the state of the given button.
    pub fn get(&self, button: MouseButton) -> (r: &ButtonState<S, T>)
        ensures
            *r == self@[button_number(button) as int],
    {
        &self.button_states[Self::button_idx(button)]
    }

    /// Returns a mutable reference to the state of the given button.
    pub fn get_mut(&mut self, button: MouseButton) -> (r: &mut ButtonState<S, T>)
        ensures
            *r == old(self)@[button_number(button) as int],
            final(self)@ == old(self)@.update(button_number(button) as int, *final(r)),
    {
        let idx = Self::button_idx(button);
        &mut self.button_states[idx]
    }

    /// Updates the state of the given button: `update_fn` takes the current state and gives
    /// the new one.
    pub fn update<F: FnOnce(ButtonState<S, T>) -> ButtonState<S, T>>(
        &mut self,
        button: MouseButton,
        update_fn: F,
    )
        requires
            update_fn.requires((old(self)@[button_number(button) as int],)),
        ensures
            exists|st: ButtonState<S, T>|
                {
                    &&& #[trigger] update_fn.ensures((old(self)@[button_number(button) as int],), st)
                    &&& final(self)@ == old(self)@.update(button_number(button) as int, st)
                },
    {
        let idx = Self::button_idx(button);
        let st = update_fn(self.button_states[idx]);
        self.button_states[idx] = st;
    }

    /// Returns all the button states in the map, each with its button.
    pub fn all_buttons(&self) -> (r: Vec<(MouseButton, ButtonState<S, T>)>)
        ensures
            r@.len() == NUM_MOUSE_BUTTONS,
            forall|i: int| 0 <= i < NUM_MOUSE_BUTTONS ==> #[trigger] r@[i] == (button_of_number(i), self@[i]),
    {
        let mut r: Vec<(MouseButton, ButtonState<S, T>)> = Vec::new();
        let mut i: usize = 0;
        while i < NUM_MOUSE_BUTTONS
            invariant
                i <= NUM_MOUSE_BUTTONS,
                self@.len() == NUM_MOUSE_BUTTONS,
                r@.len() == i,
                forall|k: int| 0 <= k < i ==> #[trigger] r@[k] == (button_of_number(k), self@[k]),
            decreases NUM_MOUSE_BUTTONS - i,
        {
            r.push((MouseButton::from_number(i as u32), self.button_states[i]));
            i = i + 1;
        }
        r
    }

    /// Returns the states of all the buttons, in the order of the buttons' numbers.
    pub fn iter(&self) -> (r: &[ButtonState<S, T>])
        ensures
            r@ == self@,
    {
        self.button_states.as_slice()
    }

    /// Returns the states of all the buttons for changing them, in the order of the buttons'
    /// numbers.
    pub fn iter_mut(&mut self) -> (r: &mut [ButtonState<S, T>; NUM_MOUSE_BUTTONS])
        ensures
            (*r)@ == old(self)@,
            final(self)@ == (*final(r))@,
    {
        &mut self.button_states
    }

    fn button_idx(button: MouseButton) -> (r: usize)
        ensures
            r == button_number(button),
            r < NUM_MOUSE_BUTTONS,
    {
        button.number() as usize
    }
}

impl<S: Copy + std::ops::Sub<Output = S>, T: Copy> ButtonMap<S, T> {
    /// Returns a new `ButtonMap` with the events of all buttons relative to the given point.
    pub fn relative_to(&self, xy: [S; 2]) -> (r: Self)
        requires
            states_sub_ok(self@, xy),
        ensures
            r@.len() == NUM_MOUSE_BUTTONS,
            forall|i: int|
                0 <= i < NUM_MOUSE_BUTTONS ==> {
                    &&& (#[trigger] r@[i]).was_just_pressed == self@[i].was_just_pressed
                    &&& r@[i].was_just_released == self@[i].was_just_released
                    &&& r@[i].position == self@[i].position
                    &&& r@[i].event is Some == self@[i].event is Some
                },
            S::obeys_sub_spec() ==> r@ == Seq::new(
                NUM_MOUSE_BUTTONS as nat,
                |i: int| relative_state(self@[i], xy),
            ),
    {
        let mut new_map = *self;
        let mut i: usize = 0;
        while i < NUM_MOUSE_BUTTONS
            invariant
                i <= NUM_MOUSE_BUTTONS,
                states_sub_ok(self@, xy),
                self@.len() == NUM_MOUSE_BUTTONS,
                new_map@.len() == NUM_MOUSE_BUTTONS,
                forall|k: int|
                    i <= k < NUM_MOUSE_BUTTONS ==> #[trigger] new_map@[k] == self@[k],
                forall|k: int|
                    0 <= k < i ==> {
                        &&& (#[trigger] new_map@[k]).was_just_pressed == self@[k].was_just_pressed
                        &&& new_map@[k].was_just_released == self@[k].was_just_released
                        &&& new_map@[k].position == self@[k].position
                        &&& new_map@[k].event is Some == self@[k].event is Some
                        &&& S::obeys_sub_spec() ==> new_map@[k] == relative_state(self@[k], xy)
                    },
            decreases NUM_MOUSE_BUTTONS - i,
        {
            let st = new_map.button_states[i];
            let event = match st.event {
                Some(e) => Some(e.relative_to(xy)),
                None => None,
            };
            new_map.button_states[i] = ButtonState { event, ..st };
            i = i + 1;
        }
        proof {
            if S::obeys_sub_spec() {
                assert(new_map@ =~= Seq::new(
                    NUM_MOUSE_BUTTONS as nat,
                    |i: int| relative_state(self@[i], xy),
                ));
            }
        }
        new_map
    }
}

} // verus!
