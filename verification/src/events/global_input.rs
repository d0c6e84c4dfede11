//! Handles all of the global input events and state.
//!
//! The core of this module is the `GlobalInput` struct. It is responsible for aggregating
//! and interpreting raw input events into high-level semantic events.

use vstd::prelude::*;
use crate::events::button_map::pressed_button_result;
use crate::events::input_state::{InputState, InputView, update_view};
use crate::events::modifier::ModifierKey;
use crate::events::mouse_button::{MouseButton, NUM_MOUSE_BUTTONS, button_number};
use crate::events::ui_event::{Button, Input, Motion, MouseClick, MouseDrag, Scroll, UiEvent};
use crate::widget::Index;

verus! {

/// Global input event handler. The `Ui` passes all events to its `GlobalInput` instance, which
/// aggregates and interprets the events to provide so-called 'high-level' events to widgets.
/// This input gets reset after every update by the `Ui`.
pub struct GlobalInput<S, X> {
    /// The `InputState` as it was at the end of the last update cycle.
    pub start_state: InputState<S>,
    /// The most recent `InputState`, with updates from handling all the events
    /// this update cycle.
    pub current_state: InputState<S>,
    /// The events that have occurred between two consecutive updates.
    events: Vec<UiEvent<S, X>>,
}

/// The higher level event that the raw `event` gives when the input is in state `v`, where
/// `drag` says whether the mouse has moved far enough from where a button was pressed to count
/// as a drag:
/// - a relative mouse move while a button is down gives a `MouseDrag` in progress from where the
///   first pressed button went down, if `drag` holds;
/// - the release of a mouse button that is down gives a finished `MouseDrag` from where it went
///   down to the mouse position if `drag` holds, and a `MouseClick` where it went down
///   otherwise;
/// - a mouse scroll gives a `Scroll` by the same amounts;
/// each with the modifier keys that are held. No other event gives one.
pub open spec fn derived_event<S, X>(v: InputView<S>, event: UiEvent<S, X>, drag: bool) -> Option<
    UiEvent<S, X>,
> {
    match event {
        UiEvent::Raw(Input::Move(Motion::MouseRelative(x, y))) => match pressed_button_result(
            v.buttons,
        ) {
            Some((button, start)) => if drag {
                Some(
                    UiEvent::MouseDrag(
                        MouseDrag {
                            button,
                            start,
                            end: [x, y],
                            in_progress: true,
                            modifier: ModifierKey { bits: v.modifiers },
                        },
                    ),
                )
            } else {
                None
            },
            None => None,
        },
        UiEvent::Raw(Input::Release(Button::Mouse(button))) => match v.buttons[button_number(
            button,
        ) as int] {
            Some(location) => if drag {
                Some(
                    UiEvent::MouseDrag(
                        MouseDrag {
                            button,
                            start: location,
                            end: v.position,
                            in_progress: false,
                            modifier: ModifierKey { bits: v.modifiers },
                        },
                    ),
                )
            } else {
                Some(
                    UiEvent::MouseClick(
                        MouseClick { button, location, modifier: ModifierKey { bits: v.modifiers } },
                    ),
                )
            },
            None => None,
        },
        UiEvent::Raw(Input::Move(Motion::MouseScroll(x, y))) => Some(
            UiEvent::Scroll(Scroll { x, y, modifiers: ModifierKey { bits: v.modifiers } }),
        ),
        _ => None,
    }
}

/// The events that pushing `event` in state `v` records: the event itself, then the higher
/// level event it gives, if any.
pub open spec fn recorded_events<S, X>(v: InputView<S>, event: UiEvent<S, X>, drag: bool) -> Seq<
    UiEvent<S, X>,
> {
    match derived_event(v, event, drag) {
        Some(d) => seq![event, d],
        None => seq![event],
    }
}

/// The input state after each of the events in turn.
pub open spec fn update_all<S, X>(v: InputView<S>, events: Seq<UiEvent<S, X>>) -> InputView<S>
    decreases events.len(),
{
    if events.len() == 0 {
        v
    } else {
        update_all(update_view(v, events[0]), events.drop_first())
    }
}

/// Whether `drag` is what the drag test `is_drag` says of `event` in state `v`: for a relative
/// mouse move while a button is down, `is_drag` applied to where the first pressed button went
/// down and to the new position; for the release of a button that is down, `is_drag` applied to
/// where it went down and to the mouse position; for any other event, `false`.
pub open spec fn drag_decided<S, X, F: Fn([S; 2], [S; 2]) -> bool>(
    is_drag: F,
    v: InputView<S>,
    event: UiEvent<S, X>,
    drag: bool,
) -> bool {
    match event {
        UiEvent::Raw(Input::Move(Motion::MouseRelative(x, y))) => match pressed_button_result(
            v.buttons,
        ) {
            Some((_, start)) => call_ensures(is_drag, (start, [x, y]), drag),
            None => !drag,
        },
        UiEvent::Raw(Input::Release(Button::Mouse(button))) => match v.buttons[button_number(
            button,
        ) as int] {
            Some(location) => call_ensures(is_drag, (location, v.position), drag),
            None => !drag,
        },
        _ => !drag,
    }
}

/// A higher level event leaves the input state as it is, so recording an event and the one it
/// gives changes the state as the event alone does.
pub proof fn law_derived_events_keep_state<S, X>(v: InputView<S>, event: UiEvent<S, X>, drag: bool)
    ensures
        update_all(v, recorded_events(v, event, drag)) == update_view(v, event),
{
    reveal_with_fuel(update_all, 3);
    let v1 = update_view(v, event);
    match derived_event(v, event, drag) {
        Some(d) => {
            assert(seq![event, d].drop_first() =~= seq![d]);
            assert(seq![d].drop_first() =~= Seq::<UiEvent<S, X>>::empty());
            assert(update_view(v1, d) == v1);
        },
        None => {
            assert(seq![event].drop_first() =~= Seq::<UiEvent<S, X>>::empty());
        },
    }
}

/// A mouse button pressed and then released, with no event between and no drag, gives a
/// `MouseClick` of that button where the mouse was when it was pressed, with the modifiers
/// held; afterwards the button is up again and the other buttons are as they were.
pub proof fn law_press_then_release_clicks<S, X>(v: InputView<S>, button: MouseButton)
    requires
        v.buttons.len() == NUM_MOUSE_BUTTONS,
    ensures
        ({
            let press = UiEvent::<S, X>::Raw(Input::Press(Button::Mouse(button)));
            let release = UiEvent::<S, X>::Raw(Input::Release(Button::Mouse(button)));
            let v1 = update_all(v, recorded_events(v, press, false));
            let click = UiEvent::<S, X>::MouseClick(
                MouseClick {
                    button,
                    location: v.position,
                    modifier: ModifierKey { bits: v.modifiers },
                },
            );
            &&& recorded_events(v, press, false) == seq![press]
            &&& recorded_events(v1, release, false) == seq![release, click]
            &&& update_all(v1, recorded_events(v1, release, false)).buttons == v.buttons.update(
                button_number(button) as int,
                None,
            )
        }),
{
    let press = UiEvent::<S, X>::Raw(Input::Press(Button::Mouse(button)));
    let release = UiEvent::<S, X>::Raw(Input::Release(Button::Mouse(button)));
    law_derived_events_keep_state(v, press, false);
    let v1 = update_all(v, recorded_events(v, press, false));
    law_derived_events_keep_state(v1, release, false);
    assert(v1.buttons[button_number(button) as int] == Some(v.position));
    assert(update_view(v1, release).buttons =~= v.buttons.update(button_number(button) as int, None));
}

/// A mouse button released, with the release a drag, gives a finished `MouseDrag` of that button
/// from where it went down to the mouse position, with the modifiers held.
pub proof fn law_release_after_drag_gives_final_drag<S, X>(v: InputView<S>, button: MouseButton)
    requires
        v.buttons[button_number(button) as int] is Some,
    ensures
        recorded_events(v, UiEvent::<S, X>::Raw(Input::Release(Button::Mouse(button))), true)
            == seq![
            UiEvent::<S, X>::Raw(Input::Release(Button::Mouse(button))),
            UiEvent::<S, X>::MouseDrag(
                MouseDrag {
                    button,
                    start: v.buttons[button_number(button) as int]->0,
                    end: v.position,
                    in_progress: false,
                    modifier: ModifierKey { bits: v.modifiers },
                },
            ),
        ],
{
}

/// Releasing a mouse button that is not down gives no click.
pub proof fn law_release_of_up_button_gives_no_click<S, X>(
    v: InputView<S>,
    button: MouseButton,
    drag: bool,
)
    requires
        v.buttons[button_number(button) as int] is None,
    ensures
        recorded_events(v, UiEvent::<S, X>::Raw(Input::Release(Button::Mouse(button))), drag)
            == seq![UiEvent::<S, X>::Raw(Input::Release(Button::Mouse(button)))],
{
}

impl<S: Copy, X> GlobalInput<S, X> {
    /// The input state as it was at the end of the last update cycle.
    pub closed spec fn start(&self) -> InputState<S> {
        self.start_state
    }

    /// The most recent input state.
    pub closed spec fn current(&self) -> InputState<S> {
        self.current_state
    }

    /// The events that have occurred since the last update, in order.
    pub closed spec fn pending(&self) -> Seq<UiEvent<S, X>> {
        self.events@
    }

    /// Returns a fresh new `GlobalInput`: no events, and start and current states both fresh,
    /// with the mouse at the given position.
    pub fn new(mouse_position: [S; 2]) -> (r: Self)
        ensures
            r.pending() == Seq::<UiEvent<S, X>>::empty(),
            r.start()@ == r.current()@,
            r.current()@ == (InputView {
                buttons: Seq::new(NUM_MOUSE_BUTTONS as nat, |i: int| None::<[S; 2]>),
                position: mouse_position,
                capturing_keyboard: None,
                capturing_mouse: None,
                modifiers: 0,
            }),
    {
        GlobalInput {
            events: Vec::new(),
            start_state: InputState::new(mouse_position),
            current_state: InputState::new(mouse_position),
        }
    }

    /// The most recent input state.
    pub fn current_state(&self) -> (r: &InputState<S>)
        ensures
            *r == self.current(),
    {
        &self.current_state
    }

    /// All events that have occurred since the last update, in order.
    pub fn all_events(&self) -> (r: &[UiEvent<S, X>])
        ensures
            r@ == self.pending(),
    {
        self.events.as_slice()
    }

    /// Adds a new event and updates the internal state. `is_drag` tells, from where a mouse
    /// button went down and where the mouse is now, whether the mouse has moved far enough to
    /// count as a drag.
    ///
    /// The event is recorded, followed by the higher level event it gives (see
    /// `derived_event`), and the current state is updated by each of them in turn.
    pub fn push_event<F: Fn([S; 2], [S; 2]) -> bool>(&mut self, event: UiEvent<S, X>, is_drag: F)
        requires
            forall|a: [S; 2], b: [S; 2]| #[trigger] is_drag.requires((a, b)),
        ensures
            exists|drag: bool|
                {
                    &&& #[trigger] drag_decided(is_drag, old(self).current()@, event, drag)
                    &&& final(self).pending() == old(self).pending() + recorded_events(
                        old(self).current()@,
                        event,
                        drag,
                    )
                    &&& final(self).current()@ == update_all(
                        old(self).current()@,
                        recorded_events(old(self).current()@, event, drag),
                    )
                },
            final(self).current()@ == update_view(old(self).current()@, event),
            final(self).start() == old(self).start(),
    {
        let ghost v0 = self.current_state@;
        let mut drag = false;
        let maybe_new_event: Option<UiEvent<S, X>> = match &event {
            UiEvent::Raw(Input::Move(Motion::MouseRelative(x, y))) => {
                let xy = [*x, *y];
                match self.current_state.mouse_buttons.pressed_button() {
                    Some((button, start)) => {
                        drag = is_drag(start, xy);
                        if drag {
                            Some(
                                UiEvent::MouseDrag(
                                    MouseDrag {
                                        button,
                                        start,
                                        end: xy,
                                        in_progress: true,
                                        modifier: self.current_state.modifiers,
                                    },
                                ),
                            )
                        } else {
                            None
                        }
                    },
                    None => None,
                }
            },
            UiEvent::Raw(Input::Release(Button::Mouse(button))) => {
                match self.current_state.mouse_buttons.get(*button) {
                    Some(location) => {
                        let position = self.current_state.mouse_position;
                        drag = is_drag(location, position);
                        if drag {
                            Some(
                                UiEvent::MouseDrag(
                                    MouseDrag {
                                        button: *button,
                                        start: location,
                                        end: position,
                                        in_progress: false,
                                        modifier: self.current_state.modifiers,
                                    },
                                ),
                            )
                        } else {
                            Some(
                                UiEvent::MouseClick(
                                    MouseClick {
                                        button: *button,
                                        location,
                                        modifier: self.current_state.modifiers,
                                    },
                                ),
                            )
                        }
                    },
                    None => None,
                }
            },
            UiEvent::Raw(Input::Move(Motion::MouseScroll(x, y))) => {
                Some(UiEvent::Scroll(Scroll { x: *x, y: *y, modifiers: self.current_state.modifiers }))
            },
            _ => None,
        };
        assert(drag_decided(is_drag, v0, event, drag));
        assert(maybe_new_event == derived_event(v0, event, drag));
        proof {
            law_derived_events_keep_state(v0, event, drag);
        }
        self.current_state.update(&event);
        self.events.push(event);
        if let Some(new_event) = maybe_new_event {
            self.current_state.update(&new_event);
            self.events.push(new_event);
        }
        assert(self.events@ =~= old(self).events@ + recorded_events(v0, event, drag));
    }

    /// Called at the end of every update cycle in order to prepare the `GlobalInput` to
    /// handle events for the next one: the events are cleared and the start state becomes the
    /// current state.
    pub fn clear_events_and_update_start_state(&mut self)
        ensures
            final(self).pending() == Seq::<UiEvent<S, X>>::empty(),
            final(self).start() == old(self).current(),
            final(self).current() == old(self).current(),
    {
        self.events.clear();
        self.start_state = self.current_state;
    }

    /// Called at the end of every update cycle in order to prepare the `GlobalInput` to handle
    /// events for the next one: the events are cleared, and the input states are kept.
    pub fn reset(&mut self)
        ensures
            final(self).pending() == Seq::<UiEvent<S, X>>::empty(),
            final(self).start() == old(self).start(),
            final(self).current() == old(self).current(),
    {
        self.events.clear();
    }

    /// Returns the most up to date position of the mouse.
    pub fn current_mouse_position(&self) -> (r: [S; 2])
        ensures
            r == self.current().mouse_position,
    {
        self.current_state.mouse_position
    }

    /// Returns the most up to date position of the mouse.
    pub fn mouse_position(&self) -> (r: [S; 2])
        ensures
            r == self.current().mouse_position,
    {
        self.current_state.mouse_position
    }

    /// Returns the input state as it was after the last update.
    pub fn starting_state(&self) -> (r: &InputState<S>)
        ensures
            *r == self.start(),
    {
        &self.start_state
    }

    /// Returns the most up to date info on which widget is capturing the mouse.
    pub fn currently_capturing_mouse(&self) -> (r: Option<Index>)
        ensures
            r == self.current().widget_capturing_mouse,
    {
        self.current_state.widget_capturing_mouse
    }

    /// Returns the most up to date info on which widget is capturing the keyboard.
    pub fn currently_capturing_keyboard(&self) -> (r: Option<Index>)
        ensures
            r == self.current().widget_capturing_keyboard,
    {
        self.current_state.widget_capturing_keyboard
    }

    /// If the given button is down, the most up to date position of the mouse.
    pub fn mouse_button_down(&self, button: MouseButton) -> (r: Option<[S; 2]>)
        ensures
            r == (if self.current()@.buttons[button_number(button) as int] is Some {
                Some(self.current().mouse_position)
            } else {
                None
            }),
    {
        match self.current_state.mouse_buttons.get(button) {
            Some(_) => Some(self.mouse_position()),
            None => None,
        }
    }
}

} // verus!
