//! An event aggregator that interprets raw mouse input into clicks and drags as it arrives,
//! keeping only the state that this needs: the mouse buttons that are down, the mouse position
//! and the held modifier keys.
//!
//! Unlike the `GlobalInput`, it tells a click from a drag when the button is released: a
//! release after the mouse moved far enough from where the button went down gives a finished
//! drag, otherwise a click.

use vstd::prelude::*;
use crate::events::button_map::{ButtonMap, pressed_button_result};
use crate::events::modifier::{ModifierKey, get_modifier, modifier_bit_of_key};
use crate::events::mouse_button::{MouseButton, NUM_MOUSE_BUTTONS, button_number};
use crate::events::ui_event::{Button, Input, Motion, MouseClick, MouseDrag, UiEvent};

verus! {

/// What the aggregator holds besides its events, as plain values.
#[verifier::ext_equal]
pub ghost struct AggregatorView<S> {
    /// For each mouse button, by its number, the position where it was pressed if it is down.
    pub buttons: Seq<Option<[S; 2]>>,
    /// The most recent position of the mouse.
    pub position: [S; 2],
    /// The bits of the held modifier keys.
    pub modifiers: u8,
}

/// The state after `event` and the higher level event that it gives, where `drag` says whether
/// the mouse is far enough from where a button went down to count as a drag:
/// - a modifier key press or release adds or removes its modifier;
/// - a mouse button press records the mouse position for the button;
/// - the release of a button that is down clears it and gives a finished `MouseDrag` from where
///   it went down to the mouse position if `drag` holds, and a `MouseClick` where it went down
///   otherwise;
/// - a mouse cursor move sets the position and, while a button is down and `drag` holds, gives
///   a `MouseDrag` in progress from where the first pressed button went down;
/// each higher level event with the held modifiers. Any other event changes nothing.
pub open spec fn aggregate<S, X>(v: AggregatorView<S>, event: UiEvent<S, X>, drag: bool) -> (
    AggregatorView<S>,
    Option<UiEvent<S, X>>,
) {
    let modifier = ModifierKey { bits: v.modifiers };
    match event {
        UiEvent::Raw(Input::Press(Button::Keyboard(key))) => match modifier_bit_of_key(key) {
            Some(m) => (AggregatorView { modifiers: v.modifiers | m, ..v }, None),
            None => (v, None),
        },
        UiEvent::Raw(Input::Release(Button::Keyboard(key))) => match modifier_bit_of_key(key) {
            Some(m) => (AggregatorView { modifiers: v.modifiers & !m, ..v }, None),
            None => (v, None),
        },
        UiEvent::Raw(Input::Press(Button::Mouse(b))) => (
            AggregatorView {
                buttons: v.buttons.update(button_number(b) as int, Some(v.position)),
                ..v
            },
            None,
        ),
        UiEvent::Raw(Input::Release(Button::Mouse(b))) => match v.buttons[button_number(
            b,
        ) as int] {
            Some(point) => (
                AggregatorView { buttons: v.buttons.update(button_number(b) as int, None), ..v },
                Some(
                    if drag {
                        UiEvent::MouseDrag(
                            MouseDrag {
                                button: b,
                                start: point,
                                end: v.position,
                                modifier,
                                in_progress: false,
                            },
                        )
                    } else {
                        UiEvent::MouseClick(MouseClick { button: b, location: point, modifier })
                    },
                ),
            ),
            None => (v, None),
        },
        UiEvent::Raw(Input::Move(Motion::MouseCursor(x, y))) => (
            AggregatorView { position: [x, y], ..v },
            match pressed_button_result(v.buttons) {
                Some((b, start)) => if drag {
                    Some(
                        UiEvent::MouseDrag(
                            MouseDrag { button: b, start, end: [x, y], modifier, in_progress: true },
                        ),
                    )
                } else {
                    None
                },
                None => None,
            },
        ),
        _ => (v, None),
    }
}

/// Whether `drag` is what the drag test `is_drag` says of `event` in state `v`: for the release
/// of a button that is down, `is_drag` applied to where it went down and to the mouse position;
/// for a mouse cursor move while a button is down, `is_drag` applied to where the first pressed
/// button went down and to the new position; for any other event, `false`.
pub open spec fn aggregator_drag_decided<S, X, F: Fn([S; 2], [S; 2]) -> bool>(
    is_drag: F,
    v: AggregatorView<S>,
    event: UiEvent<S, X>,
    drag: bool,
) -> bool {
    match event {
        UiEvent::Raw(Input::Release(Button::Mouse(b))) => match v.buttons[button_number(
            b,
        ) as int] {
            Some(point) => call_ensures(is_drag, (point, v.position), drag),
            None => !drag,
        },
        UiEvent::Raw(Input::Move(Motion::MouseCursor(x, y))) => match pressed_button_result(
            v.buttons,
        ) {
            Some((_, start)) => call_ensures(is_drag, (start, [x, y]), drag),
            None => !drag,
        },
        _ => !drag,
    }
}

/// The events that pushing `event` records: the event, then the higher level event it gives.
pub open spec fn aggregated_events<S, X>(v: AggregatorView<S>, event: UiEvent<S, X>, drag: bool) -> Seq<
    UiEvent<S, X>,
> {
    match aggregate(v, event, drag).1 {
        Some(d) => seq![event, d],
        None => seq![event],
    }
}

/// Interprets raw input events into clicks and drags as they arrive.
pub struct ConrodEventAggregator<S, X> {
    events: Vec<UiEvent<S, X>>,
    mouse_buttons: ButtonMap<[S; 2]>,
    mouse_position: [S; 2],
    modifiers: ModifierKey,
}

impl<S: Copy, X> ConrodEventAggregator<S, X> {
    /// The events pushed since the last reset, in order, with the events they gave.
    pub closed spec fn pending(&self) -> Seq<UiEvent<S, X>> {
        self.events@
    }

    /// The state of the mouse and of the modifier keys.
    pub closed spec fn state(&self) -> AggregatorView<S> {
        AggregatorView {
            buttons: self.mouse_buttons@,
            position: self.mouse_position,
            modifiers: self.modifiers.bits,
        }
    }

    /// A fresh aggregator: no events, no button down, the mouse at the given position and no
    /// modifier held.
    pub fn new(mouse_position: [S; 2]) -> (r: Self)
        ensures
            r.pending() == Seq::<UiEvent<S, X>>::empty(),
            r.state() == (AggregatorView {
                buttons: Seq::new(NUM_MOUSE_BUTTONS as nat, |i: int| None::<[S; 2]>),
                position: mouse_position,
                modifiers: 0,
            }),
    {
        ConrodEventAggregator {
            events: Vec::new(),
            mouse_buttons: ButtonMap::new(),
            mouse_position,
            modifiers: ModifierKey::no_modifier(),
        }
    }

    /// The modifier keys that are held.
    pub fn modifiers(&self) -> (r: ModifierKey)
        ensures
            r.bits == self.state().modifiers,
    {
        self.modifiers
    }

    /// All events pushed since the last reset, in order.
    pub fn all_events(&self) -> (r: &[UiEvent<S, X>])
        ensures
            r@ == self.pending(),
    {
        self.events.as_slice()
    }

    /// Forgets the events, keeping the state of the mouse and of the modifier keys.
    pub fn reset(&mut self)
        ensures
            final(self).pending() == Seq::<UiEvent<S, X>>::empty(),
            final(self).state() == old(self).state(),
    {
        self.events.clear();
    }

    /// Adds a new event and the higher level event that it gives (see `aggregate`); `is_drag`
    /// tells, from where a mouse button went down and where the mouse is, whether the mouse has
    /// moved far enough to count as a drag.
    pub fn push_event<F: Fn([S; 2], [S; 2]) -> bool>(&mut self, event: UiEvent<S, X>, is_drag: F)
        requires
            forall|a: [S; 2], b: [S; 2]| #[trigger] is_drag.requires((a, b)),
        ensures
            exists|drag: bool|
                {
                    &&& #[trigger] aggregator_drag_decided(is_drag, old(self).state(), event, drag)
                    &&& final(self).pending() == old(self).pending() + aggregated_events(
                        old(self).state(),
                        event,
                        drag,
                    )
                    &&& final(self).state() == aggregate(old(self).state(), event, drag).0
                },
    {
        let ghost v0 = self.state();
        let mut drag = false;
        let maybe_new_event: Option<UiEvent<S, X>> = match &event {
            UiEvent::Raw(Input::Press(Button::Keyboard(key))) => self.handle_key_press(*key),
            UiEvent::Raw(Input::Release(Button::Keyboard(key))) => self.handle_key_release(*key),
            UiEvent::Raw(Input::Press(Button::Mouse(button))) => {
                self.mouse_buttons.set(*button, Some(self.mouse_position));
                None
            },
            UiEvent::Raw(Input::Release(Button::Mouse(button))) => {
                self.handle_mouse_release(*button, &is_drag, &mut drag)
            },
            UiEvent::Raw(Input::Move(Motion::MouseCursor(x, y))) => {
                self.handle_mouse_move(*x, *y, &is_drag, &mut drag)
            },
            _ => None,
        };
        assert(aggregator_drag_decided(is_drag, v0, event, drag));
        self.events.push(event);
        if let Some(new_event) = maybe_new_event {
            self.events.push(new_event);
        }
        assert(self.events@ =~= old(self).events@ + aggregated_events(v0, event, drag));
    }

    /// A key press adds its modifier, if it is a modifier key.
    fn handle_key_press(&mut self, key: u32) -> (r: Option<UiEvent<S, X>>)
        ensures
            r is None,
            final(self).state() == aggregate::<S, X>(
                old(self).state(),
                UiEvent::Raw(Input::Press(Button::Keyboard(key))),
                false,
            ).0,
            final(self).events == old(self).events,
    {
        if let Some(modifier) = get_modifier(key) {
            self.modifiers.insert(modifier);
        }
        None
    }

    /// A key release removes its modifier, if it is a modifier key.
    fn handle_key_release(&mut self, key: u32) -> (r: Option<UiEvent<S, X>>)
        ensures
            r is None,
            final(self).state() == aggregate::<S, X>(
                old(self).state(),
                UiEvent::Raw(Input::Release(Button::Keyboard(key))),
                false,
            ).0,
            final(self).events == old(self).events,
    {
        if let Some(modifier) = get_modifier(key) {
            self.modifiers.remove(modifier);
        }
        None
    }

    fn handle_mouse_move<F: Fn([S; 2], [S; 2]) -> bool>(
        &mut self,
        x: S,
        y: S,
        is_drag: &F,
        drag: &mut bool,
    ) -> (r: Option<UiEvent<S, X>>)
        requires
            forall|a: [S; 2], b: [S; 2]| #[trigger] is_drag.requires((a, b)),
            !*old(drag),
        ensures
            ({
                let v = old(self).state();
                let e = UiEvent::<S, X>::Raw(Input::Move(Motion::MouseCursor(x, y)));
                &&& aggregator_drag_decided(*is_drag, v, e, *final(drag))
                &&& final(self).state() == aggregate(v, e, *final(drag)).0
                &&& r == aggregate(v, e, *final(drag)).1
            }),
            final(self).events == old(self).events,
    {
        let move_to = [x, y];
        let ghost v = self.state();
        self.mouse_position = move_to;
        assert(self.state() =~= aggregate(v, UiEvent::<S, X>::Raw(Input::Move(Motion::MouseCursor(x, y))), false).0);
        match self.mouse_buttons.pressed_button() {
            Some((button, start)) => {
                *drag = is_drag(start, move_to);
                if *drag {
                    Some(
                        UiEvent::MouseDrag(
                            MouseDrag {
                                button,
                                start,
                                end: move_to,
                                in_progress: true,
                                modifier: self.modifiers,
                            },
                        ),
                    )
                } else {
                    None
                }
            },
            None => None,
        }
    }

    fn handle_mouse_release<F: Fn([S; 2], [S; 2]) -> bool>(
        &mut self,
        button: MouseButton,
        is_drag: &F,
        drag: &mut bool,
    ) -> (r: Option<UiEvent<S, X>>)
        requires
            forall|a: [S; 2], b: [S; 2]| #[trigger] is_drag.requires((a, b)),
            !*old(drag),
        ensures
            ({
                let v = old(self).state();
                let e = UiEvent::<S, X>::Raw(Input::Release(Button::Mouse(button)));
                &&& aggregator_drag_decided(*is_drag, v, e, *final(drag))
                &&& final(self).state() == aggregate(v, e, *final(drag)).0
                &&& r == aggregate(v, e, *final(drag)).1
            }),
            final(self).events == old(self).events,
    {
        let ghost v = self.state();
        let ghost e = UiEvent::<S, X>::Raw(Input::Release(Button::Mouse(button)));
        proof {
            self.mouse_buttons.lemma_len();
            if v.buttons[button_number(button) as int] is None {
                assert(v.buttons.update(button_number(button) as int, None) =~= v.buttons);
            }
        }
        let taken = self.mouse_buttons.take(button);
        assert(self.state() =~= aggregate(v, e, false).0);
        match taken {
            Some(point) => {
                *drag = is_drag(point, self.mouse_position);
                if *drag {
                    Some(
                        UiEvent::MouseDrag(
                            MouseDrag {
                                button,
                                start: point,
                                end: self.mouse_position,
                                modifier: self.modifiers,
                                in_progress: false,
                            },
                        ),
                    )
                } else {
                    Some(
                        UiEvent::MouseClick(
                            MouseClick { button, location: point, modifier: self.modifiers },
                        ),
                    )
                }
            },
            None => None,
        }
    }
}

/// A button pressed and released with no move between gives a click where it was pressed when
/// the mouse is not far enough from there to count as a drag, and a finished drag otherwise;
/// either way the button is up afterwards.
pub proof fn law_release_gives_click_or_final_drag<S, X>(
    v: AggregatorView<S>,
    button: MouseButton,
    drag: bool,
)
    requires
        v.buttons.len() == NUM_MOUSE_BUTTONS,
    ensures
        ({
            let press = UiEvent::<S, X>::Raw(Input::Press(Button::Mouse(button)));
            let release = UiEvent::<S, X>::Raw(Input::Release(Button::Mouse(button)));
            let v1 = aggregate(v, press, false).0;
            let (v2, derived) = aggregate(v1, release, drag);
            let modifier = ModifierKey { bits: v.modifiers };
            &&& aggregated_events(v, press, false) == seq![press]
            &&& derived == Some(
                if drag {
                    UiEvent::<S, X>::MouseDrag(
                        MouseDrag {
                            button,
                            start: v.position,
                            end: v.position,
                            modifier,
                            in_progress: false,
                        },
                    )
                } else {
                    UiEvent::<S, X>::MouseClick(
                        MouseClick { button, location: v.position, modifier },
                    )
                },
            )
            &&& v2.buttons == v.buttons.update(button_number(button) as int, None)
        }),
{
    let v1 = aggregate(v, UiEvent::<S, X>::Raw(Input::Press(Button::Mouse(button))), false).0;
    assert(v1.buttons[button_number(button) as int] == Some(v.position));
    assert(v1.buttons.update(button_number(button) as int, None) =~= v.buttons.update(
        button_number(button) as int,
        None,
    ));
}

/// The higher level events that the aggregator records never change its state.
pub proof fn law_derived_events_change_nothing<S, X>(v: AggregatorView<S>, event: UiEvent<S, X>, drag: bool)
    ensures
        aggregate(v, event, drag).1 matches Some(d) ==> aggregate(aggregate(v, event, drag).0, d, drag)
            == (aggregate(v, event, drag).0, None::<UiEvent<S, X>>),
{
}

} // verus!
