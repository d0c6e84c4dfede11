//! How the `Ui` handles input events: the events it stores for the widgets (presses, releases,
//! clicks, double clicks, drags, moves, text, resizes) and the decisions it takes about input
//! capture: which widget captures the mouse and the keyboard, which widget a click belongs to.
//!
//! The `Ui` finds the widget under the mouse by its geometry; these functions take that widget
//! and return the capture events to record along with the new capturing widget.

use vstd::prelude::*;
use crate::event::{Button as EventButton, Drag, Event, Move, Press, Release, Text, Ui};
use crate::events::button_map::ButtonMap;
use crate::events::modifier::{ModifierKey, get_modifier, modifier_bit_of_key};
use crate::events::mouse_button::{MouseButton, NUM_MOUSE_BUTTONS, button_number, button_of_number};
use crate::events::ui_event::{Button, Input, Motion, MouseClick, copy_input, point_sub_ok, relative_point};
use crate::widget::Index;
use vstd::std_specs::ops::SubSpec;
use vstd::std_specs::cmp::PartialEqSpec;

verus! {

/// The capture events and the capturing widget after the widget under the mouse is known: with
/// the left mouse button up, a capturing widget that is no longer under the mouse is uncaptured,
/// then the widget under the mouse (if any) captures the mouse when nothing captures it; with
/// the left mouse button down, the capturing widget stays "pinned" and nothing changes.
pub open spec fn mouse_capture_update<S, X>(
    capturing: Option<Index>,
    under_mouse: Option<Index>,
    left_is_up: bool,
) -> (Seq<Ui<S, X>>, Option<Index>) {
    if !left_is_up {
        (Seq::empty(), capturing)
    } else {
        let (uncapture, after_uncapture) = match capturing {
            Some(idx) => if under_mouse != Some(idx) {
                (seq![Ui::WidgetUncapturesMouse(idx)], None)
            } else {
                (Seq::empty(), capturing)
            },
            None => (Seq::empty(), capturing),
        };
        match (after_uncapture, under_mouse) {
            (None, Some(idx)) => (uncapture.push(Ui::WidgetCapturesMouse(idx)), Some(idx)),
            _ => (uncapture, after_uncapture),
        }
    }
}

/// Updates which widget captures the mouse, from the widget under the mouse and whether the left
/// mouse button is up (see `mouse_capture_update`): returns the capture events to record, in
/// order, and the widget capturing the mouse afterwards.
pub fn track_widget_under_mouse_and_update_capturing<S, X>(
    capturing: Option<Index>,
    under_mouse: Option<Index>,
    left_is_up: bool,
) -> (r: (Vec<Ui<S, X>>, Option<Index>))
    ensures
        (r.0@, r.1) == mouse_capture_update::<S, X>(capturing, under_mouse, left_is_up),
{
    let mut events: Vec<Ui<S, X>> = Vec::new();
    let mut capturing = capturing;
    if left_is_up {
        if let Some(idx) = capturing {
            if !same_index(under_mouse, idx) {
                events.push(Ui::WidgetUncapturesMouse(idx));
                capturing = None;
            }
        }
        if capturing.is_none() {
            if let Some(idx) = under_mouse {
                events.push(Ui::WidgetCapturesMouse(idx));
                capturing = Some(idx);
            }
        }
    }
    (events, capturing)
}

/// The keyboard capture events and the widget capturing the keyboard after the left mouse button
/// is pressed: a capturing widget that is not under the mouse is uncaptured, and the widget
/// under the mouse (if any) captures the keyboard.
pub open spec fn keyboard_capture_on_left_press<S, X>(
    capturing: Option<Index>,
    under_mouse: Option<Index>,
) -> (Seq<Ui<S, X>>, Option<Index>) {
    let (uncapture, after_uncapture) = match capturing {
        Some(idx) => if under_mouse != Some(idx) {
            (seq![Ui::WidgetUncapturesKeyboard(idx)], None)
        } else {
            (Seq::empty(), capturing)
        },
        None => (Seq::empty(), capturing),
    };
    match under_mouse {
        Some(idx) => (uncapture.push(Ui::WidgetCapturesKeyboard(idx)), Some(idx)),
        None => (uncapture, after_uncapture),
    }
}

/// Updates which widget captures the keyboard when the left mouse button is pressed (see
/// `keyboard_capture_on_left_press`).
pub fn update_keyboard_capture_on_left_press<S, X>(
    capturing: Option<Index>,
    under_mouse: Option<Index>,
) -> (r: (Vec<Ui<S, X>>, Option<Index>))
    ensures
        (r.0@, r.1) == keyboard_capture_on_left_press::<S, X>(capturing, under_mouse),
{
    let mut events: Vec<Ui<S, X>> = Vec::new();
    let mut capturing = capturing;
    if let Some(idx) = capturing {
        if !same_index(under_mouse, idx) {
            events.push(Ui::WidgetUncapturesKeyboard(idx));
            capturing = None;
        }
    }
    if let Some(idx) = under_mouse {
        events.push(Ui::WidgetCapturesKeyboard(idx));
        capturing = Some(idx);
    }
    (events, capturing)
}

/// The mouse capture events and the widget capturing the mouse after the left mouse button is
/// released: a capturing widget that is not under the mouse is uncaptured.
pub open spec fn mouse_capture_on_left_release<S, X>(
    capturing: Option<Index>,
    under_mouse: Option<Index>,
) -> (Seq<Ui<S, X>>, Option<Index>) {
    match capturing {
        Some(idx) => if under_mouse != Some(idx) {
            (seq![Ui::WidgetUncapturesMouse(idx)], None)
        } else {
            (Seq::empty(), capturing)
        },
        None => (Seq::empty(), capturing),
    }
}

/// Updates which widget captures the mouse when the left mouse button is released (see
/// `mouse_capture_on_left_release`).
pub fn update_mouse_capture_on_left_release<S, X>(
    capturing: Option<Index>,
    under_mouse: Option<Index>,
) -> (r: (Vec<Ui<S, X>>, Option<Index>))
    ensures
        (r.0@, r.1) == mouse_capture_on_left_release::<S, X>(capturing, under_mouse),
{
    let mut events: Vec<Ui<S, X>> = Vec::new();
    let mut capturing = capturing;
    if let Some(idx) = capturing {
        if !same_index(under_mouse, idx) {
            events.push(Ui::WidgetUncapturesMouse(idx));
            capturing = None;
        }
    }
    (events, capturing)
}

/// The widget that a click belongs to: the widget under the mouse when the button is released,
/// if it is the one under the mouse when the button was pressed.
pub fn clicked_widget(under_mouse: Option<Index>, pressed_on: Option<Index>) -> (r: Option<Index>)
    ensures
        r == (match (under_mouse, pressed_on) {
            (Some(released), Some(pressed)) => if pressed == released {
                Some(released)
            } else {
                None
            },
            _ => None,
        }),
{
    match (under_mouse, pressed_on) {
        (Some(released), Some(pressed)) => {
            if pressed == released {
                Some(released)
            } else {
                None
            }
        },
        _ => None,
    }
}

fn same_index(maybe: Option<Index>, idx: Index) -> (r: bool)
    ensures
        r == (maybe == Some(idx)),
{
    match maybe {
        Some(i) => i == idx,
        None => false,
    }
}

/// With the left mouse button up, the widget under the mouse is the one that captures the mouse
/// afterwards; with it down, the capturing widget stays pinned and no event is recorded.
pub proof fn law_widget_under_mouse_captures<S, X>(
    capturing: Option<Index>,
    under_mouse: Option<Index>,
)
    ensures
        mouse_capture_update::<S, X>(capturing, under_mouse, true).1 == under_mouse,
        mouse_capture_update::<S, X>(capturing, under_mouse, false) == (Seq::<Ui<S, X>>::empty(), capturing),
{
}

/// Updating the mouse capture twice with the same widget under the mouse records nothing the
/// second time.
pub proof fn law_capture_update_settles<S, X>(
    capturing: Option<Index>,
    under_mouse: Option<Index>,
    left_is_up: bool,
)
    ensures
        mouse_capture_update::<S, X>(
            mouse_capture_update::<S, X>(capturing, under_mouse, left_is_up).1,
            under_mouse,
            left_is_up,
        ).0.len() == 0,
{
}

/// After a left release the mouse is captured by nothing or by the widget under the mouse, and
/// never by any other: a capturing widget that the mouse is not over is uncaptured, with exactly
/// one `WidgetUncapturesMouse` event, while one that the mouse is over keeps the mouse with no
/// event; the release never gives the mouse to a widget that did not hold it.
pub proof fn law_left_release_keeps_capture_only_under_mouse<S, X>(
    capturing: Option<Index>,
    under_mouse: Option<Index>,
)
    ensures
        ({
            let (events, after) = mouse_capture_on_left_release::<S, X>(capturing, under_mouse);
            &&& (after is None || after == under_mouse)
            &&& (after is None || after == capturing)
            &&& (match capturing {
                Some(idx) => under_mouse != Some(idx) ==> events == seq![
                    Ui::<S, X>::WidgetUncapturesMouse(idx),
                ] && after is None,
                None => true,
            })
            &&& (capturing is Some && under_mouse == capturing ==> events.len() == 0 && after
                == capturing)
            &&& (capturing is None ==> events.len() == 0 && after is None)
        }),
{
}

/// After a left press the keyboard is captured by the widget under the mouse, or by nothing
/// where the mouse is over no widget; a widget that held the keyboard and is not under the mouse
/// is uncaptured first, with one `WidgetUncapturesKeyboard` event, and the new capturer is
/// announced with one `WidgetCapturesKeyboard` event.
pub proof fn law_left_press_moves_keyboard_capture<S, X>(
    capturing: Option<Index>,
    under_mouse: Option<Index>,
)
    ensures
        ({
            let (events, after) = keyboard_capture_on_left_press::<S, X>(capturing, under_mouse);
            &&& after == under_mouse
            &&& events == (match capturing {
                Some(old) => if under_mouse != Some(old) {
                    seq![Ui::<S, X>::WidgetUncapturesKeyboard(old)]
                } else {
                    Seq::empty()
                },
                None => Seq::empty(),
            }) + (match under_mouse {
                Some(new) => seq![Ui::<S, X>::WidgetCapturesKeyboard(new)],
                None => Seq::empty(),
            })
        }),
{
    let (events, after) = keyboard_capture_on_left_press::<S, X>(capturing, under_mouse);
    let first = match capturing {
        Some(old) => if under_mouse != Some(old) {
            seq![Ui::<S, X>::WidgetUncapturesKeyboard(old)]
        } else {
            Seq::empty()
        },
        None => Seq::empty(),
    };
    let second = match under_mouse {
        Some(new) => seq![Ui::<S, X>::WidgetCapturesKeyboard(new)],
        None => Seq::empty(),
    };
    assert(events =~= first + second);
}

/// With the left button up, the mouse ends up captured by exactly the widget under it: a
/// capturer the mouse has left is uncaptured (one `WidgetUncapturesMouse`), then the widget
/// under the mouse captures it (one `WidgetCapturesMouse`) unless it already held it; with the
/// left button down nothing changes.
pub proof fn law_mouse_capture_follows_widget_under_mouse<S, X>(
    capturing: Option<Index>,
    under_mouse: Option<Index>,
)
    ensures
        ({
            let (events, after) = mouse_capture_update::<S, X>(capturing, under_mouse, true);
            &&& after == under_mouse
            &&& events == (if capturing != under_mouse {
                (match capturing {
                    Some(old) => seq![Ui::<S, X>::WidgetUncapturesMouse(old)],
                    None => Seq::empty(),
                }) + (match under_mouse {
                    Some(new) => seq![Ui::<S, X>::WidgetCapturesMouse(new)],
                    None => Seq::empty(),
                })
            } else {
                Seq::empty()
            })
        }),
        mouse_capture_update::<S, X>(capturing, under_mouse, false) == (Seq::<Ui<S, X>>::empty(), capturing),
{
    let (events, after) = mouse_capture_update::<S, X>(capturing, under_mouse, true);
    let first = match capturing {
        Some(old) => seq![Ui::<S, X>::WidgetUncapturesMouse(old)],
        None => Seq::empty(),
    };
    let second = match under_mouse {
        Some(new) => seq![Ui::<S, X>::WidgetCapturesMouse(new)],
        None => Seq::empty(),
    };
    if capturing != under_mouse {
        assert(events =~= first + second);
    }
}

/// After a left press, the keyboard is captured by the widget under the mouse, if any; a widget
/// keeps the keyboard across a press only if it is the one under the mouse.
pub proof fn law_left_press_gives_keyboard_to_widget_under_mouse<S, X>(
    capturing: Option<Index>,
    under_mouse: Option<Index>,
)
    ensures
        under_mouse is Some ==> keyboard_capture_on_left_press::<S, X>(capturing, under_mouse).1
            == under_mouse,
        under_mouse is None ==> keyboard_capture_on_left_press::<S, X>(capturing, under_mouse).1
            is None,
{
}

/// The input state that the `Ui` keeps as it handles input events.
#[derive(Clone, Copy, Debug)]
pub struct UiInput<S, T> {
    /// The position of the mouse.
    pub mouse_xy: [S; 2],
    /// For each mouse button that is down, where the mouse was and which widget was under it
    /// when the button was pressed.
    pub buttons: ButtonMap<([S; 2], Option<Index>)>,
    /// The modifier keys held down.
    pub modifiers: ModifierKey,
    /// The widget capturing the mouse, if any.
    pub widget_capturing_mouse: Option<Index>,
    /// The widget capturing the keyboard, if any.
    pub widget_capturing_keyboard: Option<Index>,
    /// The widget under the mouse, if any.
    pub widget_under_mouse: Option<Index>,
    /// The last click that has not yet become part of a double click, and when it happened.
    pub last_click: Option<(T, MouseClick<S>)>,
}

/// What a `UiInput` holds, as plain values.
pub ghost struct UiInputView<S, T> {
    /// The position of the mouse.
    pub mouse_xy: [S; 2],
    /// For each mouse button, by its number, where and over which widget it went down, if down.
    pub buttons: Seq<Option<([S; 2], Option<Index>)>>,
    /// The bits of the held modifier keys.
    pub modifiers: u8,
    /// The widget capturing the mouse, if any.
    pub capturing_mouse: Option<Index>,
    /// The widget capturing the keyboard, if any.
    pub capturing_keyboard: Option<Index>,
    /// The widget under the mouse, if any.
    pub under_mouse: Option<Index>,
    /// The last click, with when it happened, if any.
    pub last_click: Option<(T, MouseClick<S>)>,
}

impl<S, T> View for UiInput<S, T> {
    type V = UiInputView<S, T>;

    open spec fn view(&self) -> UiInputView<S, T> {
        UiInputView {
            mouse_xy: self.mouse_xy,
            buttons: self.buttons@,
            modifiers: self.modifiers.bits,
            capturing_mouse: self.widget_capturing_mouse,
            capturing_keyboard: self.widget_capturing_keyboard,
            under_mouse: self.widget_under_mouse,
            last_click: self.last_click,
        }
    }
}

impl<S: Copy, T: Copy> UiInput<S, T> {
    /// The input state of a new `Ui`: the mouse at `mouse_xy`, no button down, no modifier held,
    /// no widget capturing or under the mouse, and no last click.
    pub fn new(mouse_xy: [S; 2]) -> (r: Self)
        ensures
            r@ == (UiInputView::<S, T> {
                mouse_xy,
                buttons: Seq::new(NUM_MOUSE_BUTTONS as nat, |i: int| None::<([S; 2], Option<Index>)>),
                modifiers: 0,
                capturing_mouse: None,
                capturing_keyboard: None,
                under_mouse: None,
                last_click: None,
            }),
    {
        UiInput {
            mouse_xy,
            buttons: ButtonMap::new(),
            modifiers: ModifierKey::no_modifier(),
            widget_capturing_mouse: None,
            widget_capturing_keyboard: None,
            widget_under_mouse: None,
            last_click: None,
        }
    }
}

/// The stored events of the given interpreted events, in order.
pub open spec fn as_events<S, X>(uis: Seq<Ui<S, X>>) -> Seq<Event<S, X>> {
    uis.map_values(|u: Ui<S, X>| Event::Ui(u))
}

/// The drag events of the mouse buttons from number `i` on that are down, in the order of their
/// numbers, for a move of the mouse from `from` to `to`: each from where its button went down,
/// for the widget that was under the mouse then.
pub open spec fn drag_events<S: std::ops::Sub<Output = S>, X>(
    buttons: Seq<Option<([S; 2], Option<Index>)>>,
    from: [S; 2],
    to: [S; 2],
    modifiers: u8,
    i: int,
) -> Seq<Ui<S, X>>
    decreases buttons.len() - i,
{
    if i < 0 || i >= buttons.len() {
        Seq::empty()
    } else {
        let rest = drag_events(buttons, from, to, modifiers, i + 1);
        match buttons[i] {
            Some((origin, widget)) => seq![
                Ui::Drag(
                    widget,
                    Drag {
                        button: button_of_number(i),
                        origin,
                        from,
                        to,
                        delta_xy: relative_point(to, from),
                        total_delta_xy: relative_point(to, origin),
                        modifiers: ModifierKey { bits: modifiers },
                    },
                ),
            ] + rest,
            None => rest,
        }
    }
}

/// The widget that a click belongs to: the widget under the mouse, if the button went down over
/// that same widget.
pub open spec fn clicked_widget_of(under_mouse: Option<Index>, pressed_over: Option<Index>) -> Option<Index> {
    match (under_mouse, pressed_over) {
        (Some(released), Some(pressed)) => if pressed == released {
            Some(released)
        } else {
            None
        },
        _ => None,
    }
}

/// Whether the release of button `b` in state `v` asks whether the click is a double click: the
/// button is down and the last click was of the same button at the same place (`same_xy`).
pub open spec fn asks_double_click<S, T>(v: UiInputView<S, T>, b: MouseButton, same_xy: bool) -> bool {
    &&& v.buttons[button_number(b) as int] is Some
    &&& v.last_click matches Some((_, last)) && last.button == b && same_xy
}

/// What handling the raw input `input` does in state `v`: the events to store, in order, and
/// the state afterwards. `under_mouse` is the widget under the mouse after a mouse cursor move or
/// a scroll; `now` is the time of the event; `drag` says whether a mouse cursor move is far
/// enough to drag the buttons that are down; `same_xy` whether a click is where the last click
/// was; `double` whether it came soon enough after the last click to make a double click.
///
/// The raw input is stored first. Then:
/// - a mouse press stores a `Press` for the widget capturing the mouse; the left button moves the
///   keyboard capture to the widget under the mouse; the button is recorded as down, with the
///   mouse position and the widget under the mouse;
/// - a key press stores a `Press` for the widget capturing the keyboard, and adds its modifier;
/// - a mouse release stores a `Release` for the widget capturing the mouse; for a button that is
///   down, a `Click` at the mouse position, for the widget it was pressed and released over, and
///   a `DoubleClick` after it (which forgets the last click) or else the click is remembered as
///   the last one; the left button uncaptures a capturing widget no longer under the mouse; the
///   button is recorded as up;
/// - a key release stores a `Release` for the widget capturing the keyboard, and removes its
///   modifier;
/// - a resize stores `WindowResized`;
/// - a move stores a `Move` for the widget capturing the mouse; a mouse cursor move that drags
///   stores a `Drag` for each button down, moves the mouse, and updates the widget under the
///   mouse and the mouse capture; a scroll updates the widget under the mouse and the capture;
/// - text stores a `Text` for the widget capturing the keyboard;
/// each with the modifier keys held. Nothing else changes.
pub open spec fn handled<S: std::ops::Sub<Output = S>, X, T>(
    v: UiInputView<S, T>,
    input: Input<S, X>,
    under_mouse: Option<Index>,
    now: T,
    drag: bool,
    same_xy: bool,
    double: bool,
) -> (Seq<Event<S, X>>, UiInputView<S, T>) {
    let raw = seq![Event::Raw(input)];
    let mods = ModifierKey { bits: v.modifiers };
    match input {
        Input::Press(Button::Mouse(b)) => {
            let press = Ui::Press(
                v.capturing_mouse,
                Press { button: EventButton::Mouse(b, v.mouse_xy), modifiers: mods },
            );
            let (kb_events, kb) = if b == MouseButton::Left {
                keyboard_capture_on_left_press::<S, X>(v.capturing_keyboard, v.under_mouse)
            } else {
                (Seq::empty(), v.capturing_keyboard)
            };
            (
                raw + as_events(seq![press] + kb_events),
                UiInputView {
                    capturing_keyboard: kb,
                    buttons: v.buttons.update(
                        button_number(b) as int,
                        Some((v.mouse_xy, v.under_mouse)),
                    ),
                    ..v
                },
            )
        },
        Input::Press(Button::Keyboard(key)) => {
            let press = Ui::Press(
                v.capturing_keyboard,
                Press { button: EventButton::Keyboard(key), modifiers: mods },
            );
            (
                raw + as_events(seq![press]),
                match modifier_bit_of_key(key) {
                    Some(m) => UiInputView { modifiers: v.modifiers | m, ..v },
                    None => v,
                },
            )
        },
        Input::Release(Button::Mouse(b)) => {
            let release = Ui::Release(
                v.capturing_mouse,
                Release { button: EventButton::Mouse(b, v.mouse_xy), modifiers: mods },
            );
            let (click_events, last_click) = match v.buttons[button_number(b) as int] {
                Some((_, pressed_over)) => {
                    let clicked = clicked_widget_of(v.under_mouse, pressed_over);
                    let click = MouseClick { button: b, location: v.mouse_xy, modifier: mods };
                    if asks_double_click(v, b, same_xy) && double {
                        (seq![Ui::Click(clicked, click), Ui::DoubleClick(clicked, click)], None)
                    } else {
                        (seq![Ui::Click(clicked, click)], Some((now, click)))
                    }
                },
                None => (Seq::empty(), v.last_click),
            };
            let (capture_events, capturing) = if b == MouseButton::Left {
                mouse_capture_on_left_release::<S, X>(v.capturing_mouse, v.under_mouse)
            } else {
                (Seq::empty(), v.capturing_mouse)
            };
            (
                raw + as_events(seq![release] + click_events + capture_events),
                UiInputView {
                    last_click,
                    capturing_mouse: capturing,
                    buttons: v.buttons.update(button_number(b) as int, None),
                    ..v
                },
            )
        },
        Input::Release(Button::Keyboard(key)) => {
            let release = Ui::Release(
                v.capturing_keyboard,
                Release { button: EventButton::Keyboard(key), modifiers: mods },
            );
            (
                raw + as_events(seq![release]),
                match modifier_bit_of_key(key) {
                    Some(m) => UiInputView { modifiers: v.modifiers & !m, ..v },
                    None => v,
                },
            )
        },
        Input::Resize(w, h) => (raw + as_events(seq![Ui::WindowResized(w, h)]), v),
        Input::Move(motion) => {
            let mv = Ui::Move(v.capturing_mouse, Move { motion, modifiers: mods });
            match motion {
                Motion::MouseCursor(x, y) => {
                    let drags = if drag {
                        drag_events::<S, X>(v.buttons, v.mouse_xy, [x, y], v.modifiers, 0)
                    } else {
                        Seq::empty()
                    };
                    let left_is_up = v.buttons[button_number(MouseButton::Left) as int] is None;
                    let (capture_events, capturing) = mouse_capture_update::<S, X>(
                        v.capturing_mouse,
                        under_mouse,
                        left_is_up,
                    );
                    (
                        raw + as_events(seq![mv] + drags + capture_events),
                        UiInputView {
                            mouse_xy: [x, y],
                            under_mouse,
                            capturing_mouse: capturing,
                            ..v
                        },
                    )
                },
                Motion::MouseScroll(_, _) => {
                    let left_is_up = v.buttons[button_number(MouseButton::Left) as int] is None;
                    let (capture_events, capturing) = mouse_capture_update::<S, X>(
                        v.capturing_mouse,
                        under_mouse,
                        left_is_up,
                    );
                    (
                        raw + as_events(seq![mv] + capture_events),
                        UiInputView { under_mouse, capturing_mouse: capturing, ..v },
                    )
                },
                _ => (raw + as_events(seq![mv]), v),
            }
        },
        Input::Text(string) => (
            raw + as_events(
                seq![Ui::Text(v.capturing_keyboard, Text { string, modifiers: mods })],
            ),
            v,
        ),
        _ => (raw, v),
    }
}

/// Whether `drag`, `same_xy` and `double` are possible answers of the tests of `handled` for
/// handling `input` in state `v` at time `now`: `is_drag` applied to the mouse position and the
/// new cursor position of a mouse cursor move; the comparison of the mouse position with that
/// of the last click, when a button that is down is released and the last click was of that
/// button; and `is_double_click` applied to the time of the last click and `now`, when it is
/// asked (see `asks_double_click`). Tests that are not asked answer `false`.
pub open spec fn decided<S, X, T, F: Fn([S; 2], [S; 2]) -> bool, G: Fn(T, T) -> bool>(
    is_drag: F,
    is_double_click: G,
    v: UiInputView<S, T>,
    input: Input<S, X>,
    now: T,
    drag: bool,
    same_xy: bool,
    double: bool,
) -> bool
    where S: PartialEq
{
    &&& match input {
        Input::Move(Motion::MouseCursor(x, y)) => call_ensures(is_drag, (v.mouse_xy, [x, y]), drag),
        _ => !drag,
    }
    &&& match input {
        Input::Release(Button::Mouse(b)) => {
            &&& (v.buttons[button_number(b) as int] is Some && (v.last_click matches Some((_, last))
                && last.button == b)) ==> (S::obeys_eq_spec() ==> same_xy == (
            (v.last_click->0).1.location[0].eq_spec(&v.mouse_xy[0]) && (v.last_click->0).1.location[1].eq_spec(
                &v.mouse_xy[1],
            )))
            &&& asks_double_click(v, b, same_xy) ==> call_ensures(
                is_double_click,
                ((v.last_click->0).0, now),
                double,
            )
            &&& !asks_double_click(v, b, same_xy) ==> !double
        },
        _ => !same_xy && !double,
    }
}

/// Whether the subtractions that handling `input` in state `v` may make are defined: the new
/// position of a mouse cursor move minus the mouse position, and minus where each button that
/// is down went down.
pub open spec fn handle_sub_ok<S: std::ops::Sub<Output = S>, X, T>(v: UiInputView<S, T>, input: Input<S, X>) -> bool {
    match input {
        Input::Move(Motion::MouseCursor(x, y)) => {
            &&& point_sub_ok([x, y], v.mouse_xy)
            &&& forall|i: int|
                0 <= i < v.buttons.len() && v.buttons[i] is Some ==> point_sub_ok(
                    [x, y],
                    ((#[trigger] v.buttons[i])->0).0,
                )
        },
        _ => true,
    }
}

/// Appends the stored events of the given interpreted events.
fn append_events<S, X>(events: &mut Vec<Event<S, X>>, uis: Vec<Ui<S, X>>)
    ensures
        final(events)@ == old(events)@ + as_events(uis@),
{
    let ghost all = uis@;
    let mut uis = uis;
    let n = uis.len();
    let mut k: usize = 0;
    while uis.len() > 0
        invariant
            all.len() == n,
            k + uis@.len() == all.len(),
            uis@ == all.skip(k as int),
            events@ == old(events)@ + as_events(all.take(k as int)),
        decreases uis@.len(),
    {
        let u = uis.remove(0);
        events.push(Event::Ui(u));
        assert(all.take(k + 1) =~= all.take(k as int).push(all[k as int]));
        assert(as_events(all.take(k + 1)) =~= as_events(all.take(k as int)).push(Event::Ui(all[k as int])));
        k = k + 1;
        assert(uis@ =~= all.skip(k as int));
    }
    assert(all.take(k as int) =~= all);
}

/// Pushes the drag events of the buttons that are down for a move of the mouse from `from` to
/// `to` (see `drag_events`).
fn push_drag_events<S: Copy + std::ops::Sub<Output = S>, X>(
    events: &mut Vec<Event<S, X>>,
    buttons: &ButtonMap<([S; 2], Option<Index>)>,
    from: [S; 2],
    to: [S; 2],
    modifiers: ModifierKey,
)
    requires
        point_sub_ok(to, from),
        forall|i: int|
            0 <= i < buttons@.len() && buttons@[i] is Some ==> point_sub_ok(to, ((#[trigger] buttons@[i])->0).0),
    ensures
        final(events)@.len() == old(events)@.len() + drag_events::<S, X>(buttons@, from, to, modifiers.bits, 0).len(),
        S::obeys_sub_spec() ==> final(events)@ == old(events)@ + as_events(
            drag_events::<S, X>(buttons@, from, to, modifiers.bits, 0),
        ),
{
    proof {
        buttons.lemma_len();
    }
    let ghost target = drag_events::<S, X>(buttons@, from, to, modifiers.bits, 0);
    let mut i: usize = 0;
    while i < NUM_MOUSE_BUTTONS
        invariant
            i <= NUM_MOUSE_BUTTONS,
            buttons@.len() == NUM_MOUSE_BUTTONS,
            point_sub_ok(to, from),
            forall|j: int|
                0 <= j < buttons@.len() && buttons@[j] is Some ==> point_sub_ok(to, ((#[trigger] buttons@[j])->0).0),
            target == drag_events::<S, X>(buttons@, from, to, modifiers.bits, 0),
            events@.len() + drag_events::<S, X>(buttons@, from, to, modifiers.bits, i as int).len()
                == old(events)@.len() + target.len(),
            S::obeys_sub_spec() ==> events@ + as_events(
                drag_events::<S, X>(buttons@, from, to, modifiers.bits, i as int),
            ) == old(events)@ + as_events(target),
        decreases NUM_MOUSE_BUTTONS - i,
    {
        let button = MouseButton::from_number(i as u32);
        assert(button_number(button) == i);
        let ghost rest = drag_events::<S, X>(buttons@, from, to, modifiers.bits, i + 1);
        if let Some((origin, widget)) = buttons.get(button) {
            let d = Ui::Drag(
                widget,
                Drag {
                    button,
                    origin,
                    from,
                    to,
                    delta_xy: [to[0] - from[0], to[1] - from[1]],
                    total_delta_xy: [to[0] - origin[0], to[1] - origin[1]],
                    modifiers,
                },
            );
            let ghost dv = d;
            events.push(Event::Ui(d));
            proof {
                if S::obeys_sub_spec() {
                    assert(drag_events::<S, X>(buttons@, from, to, modifiers.bits, i as int) == seq![dv] + rest);
                    assert(as_events(seq![dv] + rest) =~= seq![Event::Ui(dv)] + as_events(rest));
                    assert(events@ + as_events(rest) =~= (events@.drop_last() + as_events(seq![dv] + rest)));
                }
            }
        }
        i = i + 1;
    }
}

/// Handles a raw input event: updates `state` and returns the events to store, in order (see
/// `handled`). `under_mouse` is the widget under the mouse once a mouse cursor move or a scroll
/// has happened, as the widget graph's geometry gives it; `now` is the time of the event;
/// `is_drag` tells whether a move of the mouse from one position to another is far enough to
/// drag; `is_double_click` whether a click at the second time, after one at the first, is soon
/// enough to make a double click.
pub fn handle_event<S, X: Copy, T: Copy, F: Fn([S; 2], [S; 2]) -> bool, G: Fn(T, T) -> bool>(
    state: &mut UiInput<S, T>,
    input: Input<S, X>,
    under_mouse: Option<Index>,
    now: T,
    is_drag: F,
    is_double_click: G,
) -> (r: Vec<Event<S, X>>)
    where
        S: Copy + std::ops::Sub<Output = S> + PartialEq,
    requires
        forall|a: [S; 2], b: [S; 2]| #[trigger] is_drag.requires((a, b)),
        forall|a: T, b: T| #[trigger] is_double_click.requires((a, b)),
        handle_sub_ok(old(state)@, input),
    ensures
        exists|drag: bool, same_xy: bool, double: bool|
            {
                &&& #[trigger] decided(is_drag, is_double_click, old(state)@, input, now, drag, same_xy, double)
                &&& final(state)@ == handled(old(state)@, input, under_mouse, now, drag, same_xy, double).1
                &&& r@.len() == handled(old(state)@, input, under_mouse, now, drag, same_xy, double).0.len()
                &&& S::obeys_sub_spec() ==> r@ == handled(
                    old(state)@,
                    input,
                    under_mouse,
                    now,
                    drag,
                    same_xy,
                    double,
                ).0
            },
{
    let ghost v0 = state@;
    proof {
        state.buttons.lemma_len();
    }
    let mut events: Vec<Event<S, X>> = Vec::new();
    events.push(Event::Raw(copy_input(&input)));
    let mods = state.modifiers;
    let mut drag = false;
    let mut same_xy = false;
    let mut double = false;
    match input {
        Input::Press(Button::Mouse(b)) => {
            events.push(
                Event::Ui(
                    Ui::Press(
                        state.widget_capturing_mouse,
                        Press { button: EventButton::Mouse(b, state.mouse_xy), modifiers: mods },
                    ),
                ),
            );
            if b == MouseButton::Left {
                let (uis, kb) = update_keyboard_capture_on_left_press::<S, X>(
                    state.widget_capturing_keyboard,
                    state.widget_under_mouse,
                );
                append_events(&mut events, uis);
                state.widget_capturing_keyboard = kb;
            }
            let xy = state.mouse_xy;
            let over = state.widget_under_mouse;
            state.buttons.set(b, Some((xy, over)));
        },
        Input::Press(Button::Keyboard(key)) => {
            events.push(
                Event::Ui(
                    Ui::Press(
                        state.widget_capturing_keyboard,
                        Press { button: EventButton::Keyboard(key), modifiers: mods },
                    ),
                ),
            );
            if let Some(modifier) = get_modifier(key) {
                state.modifiers.insert(modifier);
            }
        },
        Input::Release(Button::Mouse(b)) => {
            events.push(
                Event::Ui(
                    Ui::Release(
                        state.widget_capturing_mouse,
                        Release { button: EventButton::Mouse(b, state.mouse_xy), modifiers: mods },
                    ),
                ),
            );
            if let Some((_, pressed_over)) = state.buttons.get(b) {
                let clicked = clicked_widget(state.widget_under_mouse, pressed_over);
                let click = MouseClick { button: b, location: state.mouse_xy, modifier: mods };
                events.push(Event::Ui(Ui::Click(clicked, click)));
                if let Some((last_time, last)) = state.last_click {
                    if last.button == b {
                        same_xy = last.location[0] == click.location[0] && last.location[1]
                            == click.location[1];
                        if same_xy {
                            double = is_double_click(last_time, now);
                        }
                    }
                }
                if double {
                    state.last_click = None;
                    events.push(Event::Ui(Ui::DoubleClick(clicked, click)));
                } else {
                    state.last_click = Some((now, click));
                }
            }
            if b == MouseButton::Left {
                let (uis, capturing) = update_mouse_capture_on_left_release::<S, X>(
                    state.widget_capturing_mouse,
                    state.widget_under_mouse,
                );
                append_events(&mut events, uis);
                state.widget_capturing_mouse = capturing;
            }
            state.buttons.set(b, None);
        },
        Input::Release(Button::Keyboard(key)) => {
            events.push(
                Event::Ui(
                    Ui::Release(
                        state.widget_capturing_keyboard,
                        Release { button: EventButton::Keyboard(key), modifiers: mods },
                    ),
                ),
            );
            if let Some(modifier) = get_modifier(key) {
                state.modifiers.remove(modifier);
            }
        },
        Input::Resize(w, h) => {
            events.push(Event::Ui(Ui::WindowResized(w, h)));
        },
        Input::Move(motion) => {
            events.push(
                Event::Ui(Ui::Move(state.widget_capturing_mouse, Move { motion, modifiers: mods })),
            );
            match motion {
                Motion::MouseCursor(x, y) => {
                    let last_xy = state.mouse_xy;
                    let mouse_xy = [x, y];
                    drag = is_drag(last_xy, mouse_xy);
                    if drag {
                        push_drag_events(&mut events, &state.buttons, last_xy, mouse_xy, mods);
                    }
                    state.mouse_xy = mouse_xy;
                    state.widget_under_mouse = under_mouse;
                    let left_is_up = state.buttons.get(MouseButton::Left).is_none();
                    let (uis, capturing) = track_widget_under_mouse_and_update_capturing::<S, X>(
                        state.widget_capturing_mouse,
                        under_mouse,
                        left_is_up,
                    );
                    append_events(&mut events, uis);
                    state.widget_capturing_mouse = capturing;
                },
                Motion::MouseScroll(_, _) => {
                    state.widget_under_mouse = under_mouse;
                    let left_is_up = state.buttons.get(MouseButton::Left).is_none();
                    let (uis, capturing) = track_widget_under_mouse_and_update_capturing::<S, X>(
                        state.widget_capturing_mouse,
                        under_mouse,
                        left_is_up,
                    );
                    append_events(&mut events, uis);
                    state.widget_capturing_mouse = capturing;
                },
                _ => {},
            }
        },
        Input::Text(string) => {
            let widget = state.widget_capturing_keyboard;
            events.push(Event::Ui(Ui::Text(widget, Text { string, modifiers: mods })));
        },
        _ => {},
    }
    assert(decided(is_drag, is_double_click, v0, input, now, drag, same_xy, double));
    events
}

/// A mouse button pressed and then released without the mouse moving gives a `Click` at the
/// mouse position, for the widget under the mouse, right after the `Release`; afterwards the
/// button is up again.
pub proof fn law_press_then_release_clicks<S: std::ops::Sub<Output = S>, X, T>(
    v: UiInputView<S, T>,
    b: MouseButton,
    under_mouse: Option<Index>,
    pressed_at: T,
    released_at: T,
    same_xy: bool,
    double: bool,
)
    requires
        v.buttons.len() == NUM_MOUSE_BUTTONS,
    ensures
        ({
            let press = Input::<S, X>::Press(Button::Mouse(b));
            let release = Input::<S, X>::Release(Button::Mouse(b));
            let v1 = handled(v, press, under_mouse, pressed_at, false, false, false).1;
            let (evs, v2) = handled(v1, release, under_mouse, released_at, false, same_xy, double);
            &&& evs.len() >= 3
            &&& evs[2] == Event::<S, X>::Ui(
                Ui::Click(
                    v.under_mouse,
                    MouseClick { button: b, location: v.mouse_xy, modifier: ModifierKey { bits: v.modifiers } },
                ),
            )
            &&& v2.buttons[button_number(b) as int] is None
        }),
{
    let press = Input::<S, X>::Press(Button::Mouse(b));
    let release = Input::<S, X>::Release(Button::Mouse(b));
    let v1 = handled(v, press, under_mouse, pressed_at, false, false, false).1;
    assert(v1.buttons[button_number(b) as int] == Some((v.mouse_xy, v.under_mouse)));
    let (evs, v2) = handled(v1, release, under_mouse, released_at, false, same_xy, double);
    let click = MouseClick { button: b, location: v.mouse_xy, modifier: ModifierKey { bits: v.modifiers } };
    let rel = Ui::<S, X>::Release(
        v1.capturing_mouse,
        Release { button: EventButton::Mouse(b, v1.mouse_xy), modifiers: ModifierKey { bits: v1.modifiers } },
    );
    let click_events = if asks_double_click(v1, b, same_xy) && double {
        seq![Ui::<S, X>::Click(v.under_mouse, click), Ui::DoubleClick(v.under_mouse, click)]
    } else {
        seq![Ui::<S, X>::Click(v.under_mouse, click)]
    };
    let capture_events = if b == MouseButton::Left {
        mouse_capture_on_left_release::<S, X>(v1.capturing_mouse, v1.under_mouse).0
    } else {
        Seq::empty()
    };
    assert(evs == seq![Event::Raw(release)] + as_events(seq![rel] + click_events + capture_events));
    assert((seq![rel] + click_events + capture_events)[1] == Ui::<S, X>::Click(v.under_mouse, click));
}

} // verus!
