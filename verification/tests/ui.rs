use conrod::event::{Button as EventButton, Event, Press, Release, Text, Ui};
use conrod::events::modifier::{ModifierKey, KEY_LCTRL};
use conrod::events::mouse_button::MouseButton;
use conrod::events::ui_event::{Button, Input, Motion, MouseClick};
use conrod::ui::{
    handle_event, UiInput,
    clicked_widget, track_widget_under_mouse_and_update_capturing, update_keyboard_capture_on_left_press,
    update_mouse_capture_on_left_release,
};
use conrod::widget::Index;

type U = Ui<f64, ()>;

#[test]
fn widget_under_mouse_captures_mouse_when_left_button_is_up() {
    let a = Index::Public(1);
    let b = Index::Public(2);
    let (events, capturing) = track_widget_under_mouse_and_update_capturing::<f64, ()>(Some(a), Some(b), true);
    assert_eq!(events, vec![U::WidgetUncapturesMouse(a), U::WidgetCapturesMouse(b)]);
    assert_eq!(capturing, Some(b));
    let (events, capturing) = track_widget_under_mouse_and_update_capturing::<f64, ()>(Some(b), Some(b), true);
    assert!(events.is_empty());
    assert_eq!(capturing, Some(b));
    let (events, capturing) = track_widget_under_mouse_and_update_capturing::<f64, ()>(Some(b), None, true);
    assert_eq!(events, vec![U::WidgetUncapturesMouse(b)]);
    assert_eq!(capturing, None);
    let (events, capturing) = track_widget_under_mouse_and_update_capturing::<f64, ()>(None, Some(a), true);
    assert_eq!(events, vec![U::WidgetCapturesMouse(a)]);
    assert_eq!(capturing, Some(a));
}

#[test]
fn capturing_widget_stays_pinned_while_left_button_is_down() {
    let a = Index::Public(1);
    let b = Index::Public(2);
    let (events, capturing) = track_widget_under_mouse_and_update_capturing::<f64, ()>(Some(a), Some(b), false);
    assert!(events.is_empty());
    assert_eq!(capturing, Some(a));
}

#[test]
fn left_press_moves_keyboard_capture_to_widget_under_mouse() {
    let a = Index::Public(1);
    let b = Index::Public(2);
    let (events, capturing) = update_keyboard_capture_on_left_press::<f64, ()>(Some(a), Some(b));
    assert_eq!(events, vec![U::WidgetUncapturesKeyboard(a), U::WidgetCapturesKeyboard(b)]);
    assert_eq!(capturing, Some(b));
    let (events, capturing) = update_keyboard_capture_on_left_press::<f64, ()>(Some(a), Some(a));
    assert_eq!(events, vec![U::WidgetCapturesKeyboard(a)]);
    assert_eq!(capturing, Some(a));
    let (events, capturing) = update_keyboard_capture_on_left_press::<f64, ()>(Some(a), None);
    assert_eq!(events, vec![U::WidgetUncapturesKeyboard(a)]);
    assert_eq!(capturing, None);
}

#[test]
fn left_release_uncaptures_mouse_off_the_capturing_widget() {
    let a = Index::Public(1);
    let (events, capturing) = update_mouse_capture_on_left_release::<f64, ()>(Some(a), None);
    assert_eq!(events, vec![U::WidgetUncapturesMouse(a)]);
    assert_eq!(capturing, None);
    let (events, capturing) = update_mouse_capture_on_left_release::<f64, ()>(Some(a), Some(a));
    assert!(events.is_empty());
    assert_eq!(capturing, Some(a));
}

#[test]
fn click_belongs_to_widget_pressed_and_released_on() {
    let a = Index::Public(1);
    let b = Index::Public(2);
    assert_eq!(clicked_widget(Some(a), Some(a)), Some(a));
    assert_eq!(clicked_widget(Some(a), Some(b)), None);
    assert_eq!(clicked_widget(None, Some(b)), None);
    assert_eq!(clicked_widget(Some(a), None), None);
}

type E = Event<f64, ()>;
type In = Input<f64, ()>;

fn not_drag(_: [f64; 2], _: [f64; 2]) -> bool {
    false
}

fn always_drag(_: [f64; 2], _: [f64; 2]) -> bool {
    true
}

fn soon(a: u32, b: u32) -> bool {
    b - a < 5
}

#[test]
fn press_then_release_gives_press_release_click_and_capture_events() {
    let w = Index::Public(4);
    let mut state: UiInput<f64, u32> = UiInput::new([0.0, 0.0]);
    // The mouse moves over the widget `w`, which captures the mouse.
    let evs = handle_event(&mut state, In::Move(Motion::MouseCursor(10.0, 10.0)), Some(w), 0, not_drag, soon);
    assert_eq!(evs.len(), 3);
    assert_eq!(evs[2], E::Ui(Ui::WidgetCapturesMouse(w)));
    assert_eq!(state.widget_capturing_mouse, Some(w));

    let evs = handle_event(&mut state, In::Press(Button::Mouse(MouseButton::Left)), None, 1, not_drag, soon);
    assert_eq!(
        evs,
        vec![
            E::Raw(Input::Press(Button::Mouse(MouseButton::Left))),
            E::Ui(Ui::Press(Some(w), Press { button: EventButton::Mouse(MouseButton::Left, [10.0, 10.0]), modifiers: ModifierKey::no_modifier() })),
            E::Ui(Ui::WidgetCapturesKeyboard(w)),
        ]
    );
    let evs = handle_event(&mut state, In::Release(Button::Mouse(MouseButton::Left)), None, 2, not_drag, soon);
    let click = MouseClick { button: MouseButton::Left, location: [10.0, 10.0], modifier: ModifierKey::no_modifier() };
    assert_eq!(
        evs,
        vec![
            E::Raw(Input::Release(Button::Mouse(MouseButton::Left))),
            E::Ui(Ui::Release(Some(w), Release { button: EventButton::Mouse(MouseButton::Left, [10.0, 10.0]), modifiers: ModifierKey::no_modifier() })),
            E::Ui(Ui::Click(Some(w), click)),
        ]
    );
    assert_eq!(state.last_click, Some((2, click)));
}

#[test]
fn second_click_soon_at_the_same_place_is_a_double_click() {
    let mut state: UiInput<f64, u32> = UiInput::new([3.0, 4.0]);
    handle_event(&mut state, In::Press(Button::Mouse(MouseButton::Right)), None, 0, not_drag, soon);
    handle_event(&mut state, In::Release(Button::Mouse(MouseButton::Right)), None, 1, not_drag, soon);
    handle_event(&mut state, In::Press(Button::Mouse(MouseButton::Right)), None, 2, not_drag, soon);
    let evs = handle_event(&mut state, In::Release(Button::Mouse(MouseButton::Right)), None, 3, not_drag, soon);
    let click = MouseClick { button: MouseButton::Right, location: [3.0, 4.0], modifier: ModifierKey::no_modifier() };
    assert_eq!(evs.last(), Some(&E::Ui(Ui::DoubleClick(None, click))));
    assert_eq!(state.last_click, None);

    // Too late: no double click, the click becomes the last one.
    handle_event(&mut state, In::Press(Button::Mouse(MouseButton::Right)), None, 20, not_drag, soon);
    handle_event(&mut state, In::Release(Button::Mouse(MouseButton::Right)), None, 21, not_drag, soon);
    let evs = handle_event(&mut state, In::Press(Button::Mouse(MouseButton::Right)), None, 40, not_drag, soon);
    assert_eq!(evs.len(), 2);
    let evs = handle_event(&mut state, In::Release(Button::Mouse(MouseButton::Right)), None, 41, not_drag, soon);
    assert_eq!(evs.last(), Some(&E::Ui(Ui::Click(None, click))));
    assert_eq!(state.last_click, Some((41, click)));
}

#[test]
fn moving_with_a_button_down_drags() {
    let w = Index::Public(9);
    let mut state: UiInput<f64, u32> = UiInput::new([0.0, 0.0]);
    handle_event(&mut state, In::Move(Motion::MouseCursor(1.0, 1.0)), Some(w), 0, not_drag, soon);
    handle_event(&mut state, In::Press(Button::Mouse(MouseButton::Left)), Some(w), 1, not_drag, soon);
    let evs = handle_event(&mut state, In::Move(Motion::MouseCursor(5.0, 7.0)), None, 2, always_drag, soon);
    match &evs[2] {
        Event::Ui(Ui::Drag(widget, drag)) => {
            assert_eq!(*widget, Some(w));
            assert_eq!(drag.origin, [1.0, 1.0]);
            assert_eq!(drag.from, [1.0, 1.0]);
            assert_eq!(drag.to, [5.0, 7.0]);
            assert_eq!(drag.delta_xy, [4.0, 6.0]);
            assert_eq!(drag.total_delta_xy, [4.0, 6.0]);
        },
        other => panic!("expected a drag, got {:?}", other),
    }
    // The left button is down: the capturing widget stays pinned.
    assert_eq!(state.widget_capturing_mouse, Some(w));
    assert_eq!(state.widget_under_mouse, None);
    assert_eq!(evs.len(), 3);
}

#[test]
fn keys_text_and_resizes_give_their_events() {
    let w = Index::Public(2);
    let mut state: UiInput<f64, u32> = UiInput::new([0.0, 0.0]);
    state.widget_capturing_keyboard = Some(w);
    let evs = handle_event(&mut state, In::Press(Button::Keyboard(KEY_LCTRL)), None, 0, not_drag, soon);
    assert_eq!(evs[1], E::Ui(Ui::Press(Some(w), Press { button: EventButton::Keyboard(KEY_LCTRL), modifiers: ModifierKey::no_modifier() })));
    assert_eq!(state.modifiers, ModifierKey::ctrl());
    let evs = handle_event(&mut state, In::Text("hi".to_string()), None, 1, not_drag, soon);
    assert_eq!(evs[1], E::Ui(Ui::Text(Some(w), Text { string: "hi".to_string(), modifiers: ModifierKey::ctrl() })));
    let evs = handle_event(&mut state, In::Release(Button::Keyboard(KEY_LCTRL)), None, 2, not_drag, soon);
    assert_eq!(evs.len(), 2);
    assert_eq!(state.modifiers, ModifierKey::no_modifier());
    let evs = handle_event(&mut state, In::Resize(640, 480), None, 3, not_drag, soon);
    assert_eq!(evs, vec![E::Raw(Input::Resize(640, 480)), E::Ui(Ui::WindowResized(640, 480))]);
}
