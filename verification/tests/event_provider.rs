use conrod::events::event_provider::{
    keys_just_pressed, keys_just_released, mouse_buttons_just_pressed, mouse_buttons_just_released,
    mouse_click, mouse_drag, mouse_left_click, mouse_left_drag, mouse_right_click, scroll,
    text_just_entered,
};
use conrod::events::global_input::GlobalInput;
use conrod::events::modifier::{ModifierKey, KEY_LSHIFT, KEY_RSHIFT};
use conrod::events::mouse_button::MouseButton;
use conrod::events::ui_event::{Button, Input, Motion, MouseClick, MouseDrag, Scroll, UiEvent};

type Event = UiEvent<f64, ()>;

fn is_drag(a: [f64; 2], b: [f64; 2]) -> bool {
    ((a[0] - b[0]).powi(2) + (a[1] - b[1]).powi(2)).sqrt() > 4.0
}

fn drag_event(button: MouseButton, start: [f64; 2], end: [f64; 2]) -> Event {
    UiEvent::MouseDrag(MouseDrag { button, start, end, modifier: ModifierKey::no_modifier(), in_progress: true })
}

fn scroll_event(x: f64, y: f64) -> Event {
    UiEvent::Scroll(Scroll { x, y, modifiers: ModifierKey::no_modifier() })
}

fn click_event(button: MouseButton, x: f64, y: f64) -> Event {
    UiEvent::MouseClick(MouseClick { button, location: [x, y], modifier: ModifierKey::no_modifier() })
}

const KEY_H: u32 = 'h' as u32;
const KEY_I: u32 = 'i' as u32;
const KEY_J: u32 = 'j' as u32;

#[test]
fn mouse_position_should_return_mouse_position_from_current_state() {
    let position = [5.0, 7.0];
    let mut input: GlobalInput<f64, ()> = GlobalInput::new([0.0, 0.0]);
    input.current_state.mouse_position = position;
    assert_eq!(position, input.mouse_position());
}

#[test]
fn mouse_button_down_should_return_true_if_button_is_pressed() {
    let mut input: GlobalInput<f64, ()> = GlobalInput::new([0.0, 0.0]);
    input.current_state.mouse_buttons.set(MouseButton::Right, Some([0.0, 0.0]));
    assert_eq!(Some([0.0, 0.0]), input.mouse_button_down(MouseButton::Right));
    assert!(input.mouse_button_down(MouseButton::Left).is_none());
}

fn check_mouse_button_releases_should_be_collected_into_a_vec() {
    let events: Vec<Event> = vec![
        UiEvent::Raw(Input::Release(Button::Mouse(MouseButton::Left))),
        UiEvent::Raw(Input::Release(Button::Mouse(MouseButton::Middle))),
        UiEvent::Raw(Input::Release(Button::Mouse(MouseButton::Right))),
    ];
    let expected = vec![MouseButton::Left, MouseButton::Middle, MouseButton::Right];
    assert_eq!(expected, mouse_buttons_just_released(&events));
}

fn check_mouse_button_presses_should_be_collected_into_a_vec() {
    let events: Vec<Event> = vec![
        UiEvent::Raw(Input::Press(Button::Mouse(MouseButton::Left))),
        UiEvent::Raw(Input::Press(Button::Mouse(MouseButton::Middle))),
        UiEvent::Raw(Input::Press(Button::Mouse(MouseButton::Right))),
    ];
    let expected = vec![MouseButton::Left, MouseButton::Middle, MouseButton::Right];
    assert_eq!(expected, mouse_buttons_just_pressed(&events));
}

fn check_key_releases_should_be_collected_into_a_vec() {
    let events: Vec<Event> = vec![
        UiEvent::Raw(Input::Release(Button::Keyboard(KEY_LSHIFT))),
        UiEvent::Raw(Input::Release(Button::Keyboard(KEY_H))),
        UiEvent::Raw(Input::Release(Button::Keyboard(KEY_I))),
        UiEvent::Raw(Input::Release(Button::Keyboard(KEY_J))),
    ];
    let expected = vec![KEY_LSHIFT, KEY_H, KEY_I, KEY_J];
    assert_eq!(expected, keys_just_released(&events));
}

fn check_key_presses_should_be_collected_into_a_vec() {
    let events: Vec<Event> = vec![
        UiEvent::Raw(Input::Press(Button::Keyboard(KEY_LSHIFT))),
        UiEvent::Raw(Input::Press(Button::Keyboard(KEY_H))),
        UiEvent::Raw(Input::Press(Button::Keyboard(KEY_I))),
        UiEvent::Raw(Input::Press(Button::Keyboard(KEY_J))),
    ];
    let expected = vec![KEY_LSHIFT, KEY_H, KEY_I, KEY_J];
    assert_eq!(expected, keys_just_pressed(&events));
}

fn check_mouse_clicks_should_be_filtered_by_mouse_button() {
    let events: Vec<Event> = vec![
        click_event(MouseButton::Left, 50.0, 40.0),
        click_event(MouseButton::Right, 70.0, 30.0),
        click_event(MouseButton::Middle, 90.0, 20.0),
    ];
    let r_click = mouse_click(&events, MouseButton::Right).expect("expected a right click event");
    assert_eq!(MouseButton::Right, r_click.button);
    let l_click = mouse_click(&events, MouseButton::Left).expect("expected a left click event");
    assert_eq!(MouseButton::Left, l_click.button);
    let m_click = mouse_click(&events, MouseButton::Middle).expect("expected a middle click event");
    assert_eq!(MouseButton::Middle, m_click.button);
    assert_eq!(mouse_left_click(&events), Some(l_click));
    assert_eq!(mouse_right_click(&events), Some(r_click));
    assert_eq!(mouse_click(&events, MouseButton::X1), None);
}

fn check_only_the_last_drag_event_should_be_returned() {
    let events = vec![
        drag_event(MouseButton::Left, [20.0, 10.0], [30.0, 20.0]),
        drag_event(MouseButton::Left, [20.0, 10.0], [40.0, 30.0]),
        drag_event(MouseButton::Left, [20.0, 10.0], [50.0, 40.0]),
    ];
    let expected_drag = MouseDrag {
        button: MouseButton::Left,
        start: [20.0, 10.0],
        end: [50.0, 40.0],
        modifier: ModifierKey::no_modifier(),
        in_progress: true,
    };
    let actual_drag = mouse_left_drag(&events).expect("expected a mouse drag event");
    assert_eq!(expected_drag, actual_drag);
    assert_eq!(mouse_drag(&events, MouseButton::Right), None);
}

#[test]
fn input_provider_scroll_events_should_be_aggregated_into_one_when_scroll_is_called() {
    let events = vec![scroll_event(10.0, 33.0), scroll_event(10.0, 33.0), scroll_event(10.0, 33.0)];
    let expected_scroll = Scroll { x: 30.0, y: 99.0, modifiers: ModifierKey::no_modifier() };
    let actual = scroll(&events).expect("expected a scroll event");
    assert_eq!(expected_scroll, actual);
}

#[test]
fn tests_scroll_events_should_be_aggregated_into_one_when_scroll_is_called() {
    let mut input: GlobalInput<f64, ()> = GlobalInput::new([0.0, 0.0]);
    for _ in 0..3 {
        input.push_event(UiEvent::Raw(Input::Move(Motion::MouseScroll(10.0, 33.0))), is_drag);
    }
    let expected_scroll = Scroll { x: 30.0, y: 99.0, modifiers: ModifierKey::no_modifier() };
    let actual = scroll(input.all_events()).expect("expected a scroll event");
    assert_eq!(expected_scroll, actual);
}

#[test]
fn drag_with_modifer_key_should_include_modifiers_in_drag_event() {
    let mut input: GlobalInput<f64, ()> = GlobalInput::new([0.0, 0.0]);
    input.push_event(UiEvent::Raw(Input::Press(Button::Keyboard(KEY_RSHIFT))), is_drag);
    input.push_event(UiEvent::Raw(Input::Move(Motion::MouseScroll(7.0, 88.5))), is_drag);
    let s = scroll(input.all_events()).expect("expected a scroll event");
    assert_eq!(ModifierKey::shift(), s.modifiers);
}

#[test]
fn tests_entered_text_should_be_aggregated_from_multiple_events() {
    let mut input: GlobalInput<f64, ()> = GlobalInput::new([0.0, 0.0]);
    input.push_event(UiEvent::Raw(Input::Text("Phil ".to_string())), is_drag);
    input.push_event(UiEvent::Raw(Input::Text("is a".to_string())), is_drag);
    input.push_event(UiEvent::Raw(Input::Text("wesome".to_string())), is_drag);
    let actual_text = text_just_entered(input.all_events()).expect("expected to get a String, got None");
    assert_eq!("Phil is awesome".to_string(), actual_text);
}

#[test]
fn global_input_entered_text_should_be_aggregated_from_multiple_events() {
    let mut input: GlobalInput<f64, ()> = GlobalInput::new([0.0, 0.0]);
    input.push_event(UiEvent::Raw(Input::Text("Phil ".to_string())), is_drag);
    input.push_event(UiEvent::Raw(Input::Text("is a".to_string())), is_drag);
    input.push_event(UiEvent::Raw(Input::Text("wesome".to_string())), is_drag);
    let actual_text: String = text_just_entered(input.all_events()).unwrap_or_default();
    assert_eq!("Phil is awesome".to_string(), actual_text);
}

#[test]
fn no_text_gives_none() {
    let events: Vec<Event> = vec![UiEvent::Raw(Input::Text(String::new())), scroll_event(1.0, 1.0)];
    assert_eq!(text_just_entered(&events), None);
    let none: Vec<Event> = vec![];
    assert_eq!(scroll(&none), None);
}

#[test]
fn keys_just_released_should_return_vec_of_keys_just_released() {
    let mut input: GlobalInput<f64, ()> = GlobalInput::new([0.0, 0.0]);
    for key in ['d', 'o', 'r', 'k'] {
        input.push_event(UiEvent::Raw(Input::Release(Button::Keyboard(key as u32))), is_drag);
    }
    let expected = vec!['d' as u32, 'o' as u32, 'r' as u32, 'k' as u32];
    assert_eq!(expected, keys_just_released(input.all_events()));
}

#[test]
fn keys_just_pressed_should_return_vec_of_keys_just_pressed() {
    let mut input: GlobalInput<f64, ()> = GlobalInput::new([0.0, 0.0]);
    for key in ['n', 'e', 'r', 'd'] {
        input.push_event(UiEvent::Raw(Input::Press(Button::Keyboard(key as u32))), is_drag);
    }
    let expected = vec!['n' as u32, 'e' as u32, 'r' as u32, 'd' as u32];
    assert_eq!(expected, keys_just_pressed(input.all_events()));
}

#[test]
fn input_provider_mouse_button_releases_should_be_collected_into_a_vec() {
    check_mouse_button_releases_should_be_collected_into_a_vec();
}

#[test]
fn tests_mouse_button_releases_should_be_collected_into_a_vec() {
    check_mouse_button_releases_should_be_collected_into_a_vec();
}

#[test]
fn input_provider_mouse_button_presses_should_be_collected_into_a_vec() {
    check_mouse_button_presses_should_be_collected_into_a_vec();
}

#[test]
fn tests_mouse_button_presses_should_be_collected_into_a_vec() {
    check_mouse_button_presses_should_be_collected_into_a_vec();
}

#[test]
fn input_provider_key_releases_should_be_collected_into_a_vec() {
    check_key_releases_should_be_collected_into_a_vec();
}

#[test]
fn tests_key_releases_should_be_collected_into_a_vec() {
    check_key_releases_should_be_collected_into_a_vec();
}

#[test]
fn input_provider_key_presses_should_be_collected_into_a_vec() {
    check_key_presses_should_be_collected_into_a_vec();
}

#[test]
fn tests_key_presses_should_be_collected_into_a_vec() {
    check_key_presses_should_be_collected_into_a_vec();
}

#[test]
fn input_provider_mouse_clicks_should_be_filtered_by_mouse_button() {
    check_mouse_clicks_should_be_filtered_by_mouse_button();
}

#[test]
fn tests_mouse_clicks_should_be_filtered_by_mouse_button() {
    check_mouse_clicks_should_be_filtered_by_mouse_button();
}

#[test]
fn input_provider_only_the_last_drag_event_should_be_returned() {
    check_only_the_last_drag_event_should_be_returned();
}

#[test]
fn tests_only_the_last_drag_event_should_be_returned() {
    check_only_the_last_drag_event_should_be_returned();
}
