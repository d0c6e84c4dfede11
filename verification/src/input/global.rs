//! Handles all of the global input events and state.
//!
//! The core of this module is the `Global` struct. It is responsible for aggregating
//! and interpreting raw input events into high-level semantic events.

use vstd::prelude::*;

verus! {

/// Global input event handler. The `Ui` passes all events to its `Global` instance, which
/// aggregates the events to provide so-called 'high-level' events to widgets. This input gets
/// reset after every update by the `Ui`.
///
/// `S` is the type of the input state and `E` that of the events.
pub struct Global<S, E> {
    /// The input state as it was at the end of the last update cycle.
    pub start: S,
    /// The most recent input state, with updates from handling all the events
    /// this update cycle
    pub current: S,
    /// The events that have occurred between two consecutive updates.
    events: Vec<E>,
}

impl<S: Copy, E> Global<S, E> {
    /// The events that have occurred since the last update, in order.
    pub closed spec fn pending(&self) -> Seq<E> {
        self.events@
    }

    /// The `start` state.
    pub closed spec fn start_state(&self) -> S {
        self.start
    }

    /// The `current` state.
    pub closed spec fn current_state(&self) -> S {
        self.current
    }

    /// Returns a fresh new `Global` whose start and current states are both the given state.
    pub fn new(state: S) -> (g: Self)
        ensures
            g.current_state() == state,
            g.start_state() == state,
            g.pending() == Seq::<E>::empty(),
    {
        Global { events: Vec::new(), start: state, current: state }
    }

    /// The input state as it was at the end of the last update cycle.
    pub fn start_state_ref(&self) -> (r: &S)
        ensures
            *r == self.start_state(),
    {
        &self.start
    }

    /// The most recent input state.
    pub fn current_state_ref(&self) -> (r: &S)
        ensures
            *r == self.current_state(),
    {
        &self.current
    }

    /// Returns all events that have occurred since the last time `Ui::set_widgets` was called.
    pub fn events(&self) -> (r: &[E])
        ensures
            r@ == self.pending(),
    {
        self.events.as_slice()
    }

    /// Add the new event to the stack.
    pub fn push_event(&mut self, event: E)
        ensures
            final(self).pending() == old(self).pending().push(event),
            final(self).start_state() == old(self).start_state(),
            final(self).current_state() == old(self).current_state(),
    {
        self.events.push(event);
    }

    /// Called at the end of every update cycle in order to prepare the `Global` to
    /// handle events for the next one.
    pub fn clear_events_and_update_start_state(&mut self)
        ensures
            final(self).pending() == Seq::<E>::empty(),
            final(self).current_state() == old(self).current_state(),
            final(self).start_state() == old(self).current_state(),
    {
        self.events.clear();
        self.start = self.current;
    }
}

} // verus!
