//! The state of all input: mouse buttons and position, held modifier keys, and which widgets
//! capture the mouse and the keyboard.

use vstd::prelude::*;
use crate::events::button_map::ButtonMap;
use crate::events::modifier::{ModifierKey, get_modifier, modifier_bit_of_key};
use crate::events::mouse_button::{MouseButton, NUM_MOUSE_BUTTONS, button_number, button_of_number};
use crate::events::ui_event::{Button, Input, Motion, UiEvent, point_sub_ok, relative_point};
use vstd::std_specs::ops::SubSpec;
use crate::widget::Index;

verus! {

/// Stores the state of all input.
#[derive(Clone, Copy, Debug, PartialEq)]
pub struct InputState<S> {
    /// For each mouse button, the position of the mouse when it was pressed, if it is down.
    pub mouse_buttons: ButtonMap<[S; 2]>,
    /// The most recent position of the mouse.
    pub mouse_position: [S; 2],
    /// The widget that captures the keyboard, if any.
    pub widget_capturing_keyboard: Option<Index>,
    /// The widget that captures the mouse, if any.
    pub widget_capturing_mouse: Option<Index>,
    /// The modifier keys that are held down.
    pub modifiers: ModifierKey,
}

/// What an `InputState` holds, as plain values.
pub ghost struct InputView<S> {
    /// For each mouse button, by its number, the position where it was pressed if it is down.
    pub buttons: Seq<Option<[S; 2]>>,
    /// The most recent position of the mouse.
    pub position: [S; 2],
    /// The widget that captures the keyboard, if any.
    pub capturing_keyboard: Option<Index>,
    /// The widget that captures the mouse, if any.
    pub capturing_mouse: Option<Index>,
    /// The bits of the held modifier keys.
    pub modifiers: u8,
}

impl<S> View for InputState<S> {
    type V = InputView<S>;

    open spec fn view(&self) -> InputView<S> {
        InputView {
            buttons: self.mouse_buttons@,
            position: self.mouse_position,
            capturing_keyboard: self.widget_capturing_keyboard,
            capturing_mouse: self.widget_capturing_mouse,
            modifiers: self.modifiers.bits,
        }
    }
}

/// The input state after the given event: a mouse button press records the mouse position for
/// the button and its release clears it; a relative mouse move sets the mouse position; a
/// modifier key press adds its modifier and its release removes it; capture and uncapture
/// events set and clear the capturing widget. Every other event leaves the state as it is.
pub open spec fn update_view<S, X>(v: InputView<S>, e: UiEvent<S, X>) -> InputView<S> {
    match e {
        UiEvent::Raw(Input::Press(Button::Mouse(b))) => InputView {
            buttons: v.buttons.update(button_number(b) as int, Some(v.position)),
            ..v
        },
        UiEvent::Raw(Input::Release(Button::Mouse(b))) => InputView {
            buttons: v.buttons.update(button_number(b) as int, None),
            ..v
        },
        UiEvent::Raw(Input::Move(Motion::MouseRelative(x, y))) => InputView {
            position: [x, y],
            ..v
        },
        UiEvent::Raw(Input::Press(Button::Keyboard(key))) => match modifier_bit_of_key(key) {
            Some(m) => InputView { modifiers: v.modifiers | m, ..v },
            None => v,
        },
        UiEvent::Raw(Input::Release(Button::Keyboard(key))) => match modifier_bit_of_key(key) {
            Some(m) => InputView { modifiers: v.modifiers & !m, ..v },
            None => v,
        },
        UiEvent::WidgetCapturesKeyboard(idx) => InputView { capturing_keyboard: Some(idx), ..v },
        UiEvent::WidgetUncapturesKeyboard(_) => InputView { capturing_keyboard: None, ..v },
        UiEvent::WidgetCapturesMouse(idx) => InputView { capturing_mouse: Some(idx), ..v },
        UiEvent::WidgetUncapturesMouse(_) => InputView { capturing_mouse: None, ..v },
        _ => v,
    }
}

/// Pressing and then releasing a modifier key that was not held leaves the input state as it was.
pub proof fn law_modifier_press_then_release<S, X>(v: InputView<S>, key: u32)
    requires
        modifier_bit_of_key(key) matches Some(m) && v.modifiers & m == 0,
    ensures
        update_view(
            update_view(v, UiEvent::<S, X>::Raw(Input::Press(Button::Keyboard(key)))),
            UiEvent::<S, X>::Raw(Input::Release(Button::Keyboard(key))),
        ) == v,
{
    let m = modifier_bit_of_key(key)->0;
    crate::events::modifier::law_modifier_is_single_key(key);
    crate::events::modifier::law_remove_undoes_insert(v.modifiers, m);
}

/// A widget that starts capturing the mouse (or the keyboard) is the capturing one until an
/// uncapture event, after which no widget captures it.
pub proof fn law_capture_then_uncapture<S, X>(v: InputView<S>, idx: Index, other: Index)
    ensures
        update_view(v, UiEvent::<S, X>::WidgetCapturesMouse(idx)).capturing_mouse == Some(idx),
        update_view(v, UiEvent::<S, X>::WidgetCapturesKeyboard(idx)).capturing_keyboard == Some(idx),
        update_view(
            update_view(v, UiEvent::<S, X>::WidgetCapturesMouse(idx)),
            UiEvent::<S, X>::WidgetUncapturesMouse(other),
        ).capturing_mouse is None,
        update_view(
            update_view(v, UiEvent::<S, X>::WidgetCapturesKeyboard(idx)),
            UiEvent::<S, X>::WidgetUncapturesKeyboard(other),
        ).capturing_keyboard is None,
{
}

impl<S: Copy> InputState<S> {
    /// Returns a fresh input state: no button down, the mouse at the given position, no widget
    /// capturing anything and no modifier held.
    pub fn new(mouse_position: [S; 2]) -> (r: Self)
        ensures
            r@ == (InputView {
                buttons: Seq::new(NUM_MOUSE_BUTTONS as nat, |i: int| None::<[S; 2]>),
                position: mouse_position,
                capturing_keyboard: None,
                capturing_mouse: None,
                modifiers: 0,
            }),
    {
        InputState {
            mouse_buttons: ButtonMap::new(),
            mouse_position,
            widget_capturing_keyboard: None,
            widget_capturing_mouse: None,
            modifiers: ModifierKey::no_modifier(),
        }
    }

    /// Updates the input state based on an event (see `update_view`).
    pub fn update<X>(&mut self, event: &UiEvent<S, X>)
        ensures
            final(self)@ == update_view(old(self)@, *event),
    {
        match event {
            UiEvent::Raw(Input::Press(Button::Mouse(b))) => {
                let p = self.mouse_position;
                self.mouse_buttons.set(*b, Some(p));
            },
            UiEvent::Raw(Input::Release(Button::Mouse(b))) => {
                self.mouse_buttons.set(*b, None);
            },
            UiEvent::Raw(Input::Move(Motion::MouseRelative(x, y))) => {
                self.mouse_position = [*x, *y];
            },
            UiEvent::Raw(Input::Press(Button::Keyboard(key))) => {
                if let Some(modifier) = get_modifier(*key) {
                    self.modifiers.insert(modifier);
                }
            },
            UiEvent::Raw(Input::Release(Button::Keyboard(key))) => {
                if let Some(modifier) = get_modifier(*key) {
                    self.modifiers.remove(modifier);
                }
            },
            UiEvent::WidgetCapturesKeyboard(idx) => {
                self.widget_capturing_keyboard = Some(*idx);
            },
            UiEvent::WidgetUncapturesKeyboard(_) => {
                self.widget_capturing_keyboard = None;
            },
            UiEvent::WidgetCapturesMouse(idx) => {
                self.widget_capturing_mouse = Some(*idx);
            },
            UiEvent::WidgetUncapturesMouse(_) => {
                self.widget_capturing_mouse = None;
            },
            _ => {},
        }
    }
}

/// Whether every position of the input state can be made relative to `xy`.
pub open spec fn view_sub_ok<S: std::ops::Sub<Output = S>>(v: InputView<S>, xy: [S; 2]) -> bool {
    &&& point_sub_ok(v.position, xy)
    &&& forall|i: int| 0 <= i < v.buttons.len() && v.buttons[i] is Some ==> point_sub_ok(#[trigger] v.buttons[i]->0, xy)
}

/// The input state with its positions made relative to `xy`: the mouse position and the
/// position where each pressed button went down.
pub open spec fn relative_view<S: std::ops::Sub<Output = S>>(v: InputView<S>, xy: [S; 2]) -> InputView<S> {
    InputView {
        buttons: v.buttons.map_values(
            |b: Option<[S; 2]>|
                match b {
                    Some(p) => Some(relative_point(p, xy)),
                    None => None,
                },
        ),
        position: relative_point(v.position, xy),
        ..v
    }
}

impl<S: Copy + std::ops::Sub<Output = S>> InputState<S> {
    /// Returns a copy of the input state with its positions relative to `xy` (see
    /// `relative_view`).
    pub fn relative_to(&self, xy: [S; 2]) -> (r: Self)
        requires
            view_sub_ok(self@, xy),
        ensures
            S::obeys_sub_spec() ==> r@ == relative_view(self@, xy),
            r@.buttons.len() == self@.buttons.len(),
            forall|i: int| 0 <= i < self@.buttons.len() ==> (#[trigger] r@.buttons[i] is Some) == (self@.buttons[i] is Some),
            r.widget_capturing_keyboard == self.widget_capturing_keyboard,
            r.widget_capturing_mouse == self.widget_capturing_mouse,
            r.modifiers == self.modifiers,
    {
        let mut buttons = self.mouse_buttons;
        proof {
            buttons.lemma_len();
        }
        let mut i: usize = 0;
        while i < NUM_MOUSE_BUTTONS
            invariant
                i <= NUM_MOUSE_BUTTONS,
                view_sub_ok(self@, xy),
                self@.buttons.len() == NUM_MOUSE_BUTTONS,
                buttons@.len() == NUM_MOUSE_BUTTONS,
                forall|k: int| i <= k < NUM_MOUSE_BUTTONS ==> #[trigger] buttons@[k] == self@.buttons[k],
                forall|k: int|
                    0 <= k < i ==> (#[trigger] buttons@[k] is Some) == (self@.buttons[k] is Some),
                forall|k: int|
                    0 <= k < i ==> S::obeys_sub_spec() ==> #[trigger] buttons@[k] == match self@.buttons[k] {
                        Some(p) => Some(relative_point(p, xy)),
                        None => None,
                    },
            decreases NUM_MOUSE_BUTTONS - i,
        {
            let button = MouseButton::from_number(i as u32);
            assert(button_number(button) == i);
            if let Some(p) = buttons.get(button) {
                buttons.set(button, Some([p[0] - xy[0], p[1] - xy[1]]));
            }
            i = i + 1;
        }
        let r = InputState {
            mouse_buttons: buttons,
            mouse_position: [self.mouse_position[0] - xy[0], self.mouse_position[1] - xy[1]],
            widget_capturing_keyboard: self.widget_capturing_keyboard,
            widget_capturing_mouse: self.widget_capturing_mouse,
            modifiers: self.modifiers,
        };
        proof {
            if S::obeys_sub_spec() {
                assert(r@.buttons =~= relative_view(self@, xy).buttons);
            }
        }
        r
    }
}

} // verus!
