use conrod::events::button_map::ButtonMap;
use conrod::events::global_input::GlobalInput;
use conrod::events::input_state::InputState;
use conrod::events::modifier::{get_modifier, ModifierKey, KEY_LCTRL, KEY_LSHIFT, KEY_RALT, KEY_RGUI, KEY_RSHIFT};
use conrod::events::mouse_button::MouseButton;
use conrod::events::ui_event::{Button, Input, Motion, MouseClick, MouseDrag, Scroll, UiEvent};
use conrod::widget::Index;

type Event = UiEvent<f64, ()>;

/// The drag test that the `Ui` uses: the mouse moved more than 4 units.
fn is_drag(a: [f64; 2], b: [f64; 2]) -> bool {
    let dx = a[0] - b[0];
    let dy = a[1] - b[1];
    (dx * dx + dy * dy).sqrt() > 4.0
}

fn push(input: &mut GlobalInput<f64, ()>, event: Event) {
    input.push_event(event, is_drag);
}

fn mouse_move_event(x: f64, y: f64) -> Event {
    UiEvent::Raw(Input::Move(Motion::MouseRelative(x, y)))
}

fn press(button: Button) -> Event {
    UiEvent::Raw(Input::Press(button))
}

fn release(button: Button) -> Event {
    UiEvent::Raw(Input::Release(button))
}

fn clicks(input: &GlobalInput<f64, ()>) -> Vec<MouseClick<f64>> {
    input
        .all_events()
        .iter()
        .filter_map(|e| match e {
            UiEvent::MouseClick(c) => Some(*c),
            _ => None,
        })
        .collect()
}

fn drags(input: &GlobalInput<f64, ()>) -> Vec<MouseDrag<f64>> {
    input
        .all_events()
        .iter()
        .filter_map(|e| match e {
            UiEvent::MouseDrag(d) => Some(*d),
            _ => None,
        })
        .collect()
}

fn scrolls(input: &GlobalInput<f64, ()>) -> Vec<Scroll<f64>> {
    input
        .all_events()
        .iter()
        .filter_map(|e| match e {
            UiEvent::Scroll(s) => Some(*s),
            _ => None,
        })
        .collect()
}

#[test]
fn modifier_keys_have_their_bits() {
    assert_eq!(ModifierKey::no_modifier().bits, 0);
    assert_eq!(ModifierKey::ctrl().bits, 1);
    assert_eq!(ModifierKey::shift().bits, 2);
    assert_eq!(ModifierKey::alt().bits, 4);
    assert_eq!(ModifierKey::gui().bits, 8);
}

#[test]
fn modifier_insert_remove_contains() {
    let mut m = ModifierKey::no_modifier();
    m.insert(ModifierKey::ctrl());
    m.insert(ModifierKey::alt());
    assert_eq!(m.bits, 5);
    assert!(m.contains(ModifierKey::ctrl()));
    assert!(!m.contains(ModifierKey::shift()));
    m.remove(ModifierKey::ctrl());
    assert_eq!(m.bits, 4);
    m.remove(ModifierKey::ctrl());
    assert_eq!(m.bits, 4);
}

#[test]
fn get_modifier_maps_left_and_right_keys() {
    assert_eq!(get_modifier(KEY_LCTRL), Some(ModifierKey::ctrl()));
    assert_eq!(get_modifier(0x4000_00E4), Some(ModifierKey::ctrl()));
    assert_eq!(get_modifier(KEY_LSHIFT), Some(ModifierKey::shift()));
    assert_eq!(get_modifier(KEY_RSHIFT), Some(ModifierKey::shift()));
    assert_eq!(get_modifier(0x4000_00E2), Some(ModifierKey::alt()));
    assert_eq!(get_modifier(KEY_RALT), Some(ModifierKey::alt()));
    assert_eq!(get_modifier(0x4000_00E3), Some(ModifierKey::gui()));
    assert_eq!(get_modifier(KEY_RGUI), Some(ModifierKey::gui()));
    assert_eq!(get_modifier('a' as u32), None);
    assert_eq!(get_modifier(0x4000_00E8), None);
}

#[test]
fn mouse_button_numbers_round_trip() {
    let all = [
        MouseButton::Unknown,
        MouseButton::Left,
        MouseButton::Right,
        MouseButton::Middle,
        MouseButton::X1,
        MouseButton::X2,
        MouseButton::Button6,
        MouseButton::Button7,
        MouseButton::Button8,
    ];
    for (i, b) in all.iter().enumerate() {
        assert_eq!(b.number(), i as u32);
        assert_eq!(MouseButton::from_number(i as u32), *b);
    }
    assert_eq!(MouseButton::from_number(9), MouseButton::Unknown);
}

#[test]
fn input_state_pressed_button_returns_none_if_no_buttons_are_pressed() {
    let map: ButtonMap<[f64; 2]> = ButtonMap::new();
    let pressed = map.pressed_button();
    assert!(pressed.is_none());
}

#[test]
fn input_state_pressed_button_should_return_first_pressed_button() {
    let mut map = ButtonMap::new();

    map.set(MouseButton::Right, Some([3.0, 3.0]));
    map.set(MouseButton::X1, Some([5.4, 4.5]));

    let pressed = map.pressed_button();
    assert_eq!(Some((MouseButton::Right, [3.0, 3.0])), pressed);
}

#[test]
fn input_state_button_down_should_store_the_point() {
    let mut map = ButtonMap::new();
    let point: Option<[f64; 2]> = Some([2.0, 5.0]);
    map.set(MouseButton::Left, point);

    assert_eq!(point, map.get(MouseButton::Left));
}

#[test]
fn input_state_take_resets_and_returns_current_state() {
    let mut map = ButtonMap::new();
    let point: Option<[f64; 2]> = Some([2.0, 5.0]);
    map.set(MouseButton::Left, point);

    let taken = map.take(MouseButton::Left);
    assert_eq!(point, taken);
    assert!(map.get(MouseButton::Left).is_none());
}

#[test]
fn mouse_button_map_pressed_button_returns_none_if_no_buttons_are_pressed() {
    let map: ButtonMap<[f64; 2]> = ButtonMap::new();
    let pressed = map.pressed_button();
    assert!(pressed.is_none());
}

#[test]
fn mouse_button_map_pressed_button_should_return_first_pressed_button() {
    let mut map = ButtonMap::new();

    map.set(MouseButton::Right, Some([3.0, 3.0]));
    map.set(MouseButton::X1, Some([5.4, 4.5]));

    let pressed = map.pressed_button();
    assert_eq!(Some((MouseButton::Right, [3.0, 3.0])), pressed);
}

#[test]
fn mouse_button_map_button_down_should_store_the_point() {
    let mut map = ButtonMap::new();
    let point: Option<[f64; 2]> = Some([2.0, 5.0]);
    map.set(MouseButton::Left, point);

    assert_eq!(point, map.get(MouseButton::Left));
}

#[test]
fn mouse_button_map_take_resets_and_returns_current_state() {
    let mut map = ButtonMap::new();
    let point: Option<[f64; 2]> = Some([2.0, 5.0]);
    map.set(MouseButton::Left, point);

    let taken = map.take(MouseButton::Left);
    assert_eq!(point, taken);
    assert!(map.get(MouseButton::Left).is_none());
}

#[test]
fn input_state_update_tracks_buttons_position_modifiers_and_capture() {
    let mut state: InputState<f64> = InputState::new([0.0, 0.0]);
    state.update(&mouse_move_event(3.0, 4.0));
    assert_eq!(state.mouse_position, [3.0, 4.0]);
    state.update(&press(Button::Mouse(MouseButton::Left)));
    assert_eq!(state.mouse_buttons.get(MouseButton::Left), Some([3.0, 4.0]));
    state.update(&release(Button::Mouse(MouseButton::Left)));
    assert_eq!(state.mouse_buttons.get(MouseButton::Left), None);
    state.update(&press(Button::Keyboard(KEY_LSHIFT)));
    assert_eq!(state.modifiers.bits, 2);
    state.update(&press(Button::Keyboard('x' as u32)));
    assert_eq!(state.modifiers.bits, 2);
    state.update(&release(Button::Keyboard(KEY_RSHIFT)));
    assert_eq!(state.modifiers.bits, 0);
    let idx = Index::Public(3);
    state.update(&UiEvent::<f64, ()>::WidgetCapturesMouse(idx));
    state.update(&UiEvent::<f64, ()>::WidgetCapturesKeyboard(idx));
    assert_eq!(state.widget_capturing_mouse, Some(idx));
    assert_eq!(state.widget_capturing_keyboard, Some(idx));
    state.update(&UiEvent::<f64, ()>::WidgetUncapturesMouse(Index::Public(9)));
    state.update(&UiEvent::<f64, ()>::WidgetUncapturesKeyboard(idx));
    assert_eq!(state.widget_capturing_mouse, None);
    assert_eq!(state.widget_capturing_keyboard, None);
}

#[test]
fn modifier_press_then_release_restores_state() {
    let mut state: InputState<f64> = InputState::new([0.0, 0.0]);
    state.update(&press(Button::Keyboard(KEY_LCTRL)));
    let before = state;
    state.update(&press(Button::Keyboard(KEY_RALT)));
    state.update(&release(Button::Keyboard(KEY_RALT)));
    assert_eq!(state, before);
}

#[test]
fn resetting_input_should_set_starting_state_to_current_state() {
    let mut input = GlobalInput::new([0.0, 0.0]);
    push(&mut input, UiEvent::Raw(Input::Press(Button::Keyboard(KEY_LSHIFT))));
    push(&mut input, UiEvent::Raw(Input::Move(Motion::MouseScroll(0.0, 50.0))));

    let expected_start = input.current_state;
    input.clear_events_and_update_start_state();
    assert_eq!(expected_start, input.start_state);
}

#[test]
fn resetting_input_should_clear_out_events() {
    let mut input = GlobalInput::new([0.0, 0.0]);
    push(&mut input, UiEvent::Raw(Input::Press(Button::Keyboard(KEY_LSHIFT))));
    push(&mut input, UiEvent::Raw(Input::Move(Motion::MouseScroll(0.0, 50.0))));
    input.clear_events_and_update_start_state();
    assert!(input.all_events().iter().next().is_none());
}

#[test]
fn mouse_button_down_should_return_none_if_button_is_not_pressed() {
    let pressed_button = MouseButton::Middle;
    let non_pressed_button = MouseButton::Right;

    let mut input = GlobalInput::new([0.0, 0.0]);
    push(&mut input, UiEvent::Raw(Input::Press(Button::Mouse(pressed_button))));

    assert!(input.mouse_button_down(non_pressed_button).is_none());
    assert_eq!(input.mouse_button_down(pressed_button), Some([0.0, 0.0]));
}

#[test]
fn global_input_no_events_should_be_returned_after_reset_is_called() {
    let mut input = GlobalInput::new([0.0, 0.0]);
    push(&mut input, UiEvent::Raw(Input::Press(Button::Keyboard(KEY_RSHIFT))));
    push(&mut input, UiEvent::Raw(Input::Move(Motion::MouseScroll(7.0, 88.5))));
    push(&mut input, UiEvent::Raw(Input::Press(Button::Mouse(MouseButton::Left))));
    push(&mut input, mouse_move_event(60.0, 30.0));
    push(&mut input, UiEvent::Raw(Input::Release(Button::Mouse(MouseButton::Left))));

    input.clear_events_and_update_start_state();

    assert!(input.all_events().iter().next().is_none());
}

#[test]
fn events_should_return_all_inputs_in_order() {
    let mut input = GlobalInput::new([0.0, 0.0]);

    let evt1: Event = UiEvent::Raw(Input::Press(Button::Keyboard('z' as u32)));
    push(&mut input, evt1.clone());
    let evt2: Event = UiEvent::Raw(Input::Press(Button::Keyboard('a' as u32)));
    push(&mut input, evt2.clone());

    let results = input.all_events().iter().collect::<Vec<&Event>>();
    assert_eq!(2, results.len());
    assert_eq!(evt1, *results[0]);
    assert_eq!(evt2, *results[1]);
}

#[test]
fn event_aggregator_should_track_widget_currently_capturing_keyboard() {
    let mut aggregator = GlobalInput::new([0.0, 0.0]);

    let idx: Index = Index::Public(5);
    push(&mut aggregator, UiEvent::WidgetCapturesKeyboard(idx));

    assert_eq!(Some(idx), aggregator.currently_capturing_keyboard());

    push(&mut aggregator, UiEvent::WidgetUncapturesKeyboard(idx));
    assert!(aggregator.currently_capturing_keyboard().is_none());

    let new_idx: Index = Index::Public(5);
    push(&mut aggregator, UiEvent::WidgetCapturesKeyboard(new_idx));
    assert_eq!(Some(new_idx), aggregator.currently_capturing_keyboard());
}

#[test]
fn event_aggregator_should_track_widget_currently_capturing_mouse() {
    let mut aggregator = GlobalInput::new([0.0, 0.0]);

    let idx: Index = Index::Public(5);
    push(&mut aggregator, UiEvent::WidgetCapturesMouse(idx));

    assert_eq!(Some(idx), aggregator.currently_capturing_mouse());

    push(&mut aggregator, UiEvent::WidgetUncapturesMouse(idx));
    assert!(aggregator.currently_capturing_mouse().is_none());

    let new_idx: Index = Index::Public(5);
    push(&mut aggregator, UiEvent::WidgetCapturesMouse(new_idx));
    assert_eq!(Some(new_idx), aggregator.currently_capturing_mouse());
}

#[test]
fn event_aggregator_should_track_current_mouse_position() {
    let mut aggregator = GlobalInput::new([0.0, 0.0]);

    push(&mut aggregator, mouse_move_event(50.0, 77.7));
    assert_eq!([50.0, 77.7], aggregator.mouse_position());
}

#[test]
fn scroll_events_should_have_modifier_keys() {
    let mut input = GlobalInput::new([0.0, 0.0]);

    push(&mut input, UiEvent::Raw(Input::Press(Button::Keyboard(KEY_LSHIFT))));
    push(&mut input, UiEvent::Raw(Input::Move(Motion::MouseScroll(0.0, 50.0))));

    let scroll = *scrolls(&input).first().expect("expected to get a scroll event");
    assert_eq!(ModifierKey::shift(), scroll.modifiers);
}

#[test]
fn handler_should_return_scroll_event_if_one_exists() {
    let mut aggregator = GlobalInput::new([0.0, 0.0]);

    push(&mut aggregator, UiEvent::Raw(Input::Move(Motion::MouseScroll(10.0, 33.0))));

    let expected_scroll = Scroll { x: 10.0, y: 33.0, modifiers: ModifierKey::no_modifier() };
    let actual_scroll = *scrolls(&aggregator).first().expect("expected a scroll event");
    assert_eq!(expected_scroll, actual_scroll);
}

#[test]
fn click_with_modifier_key_should_include_modifiers_in_click_event() {
    let mut aggregator = GlobalInput::new([0.0, 0.0]);
    push(&mut aggregator, UiEvent::Raw(Input::Press(Button::Keyboard(KEY_LCTRL))));
    push(&mut aggregator, UiEvent::Raw(Input::Press(Button::Mouse(MouseButton::Left))));
    push(&mut aggregator, UiEvent::Raw(Input::Release(Button::Mouse(MouseButton::Left))));

    let click = *clicks(&aggregator).first().expect("expected mouse left click event");
    let expected = MouseClick {
        button: MouseButton::Left,
        location: [0.0, 0.0],
        modifier: ModifierKey::ctrl(),
    };
    assert_eq!(expected, click);
}

#[test]
fn mouse_button_pressed_then_moved_creates_drag_event() {
    let mut aggregator = GlobalInput::new([0.0, 0.0]);

    let press_left = UiEvent::Raw(Input::Press(Button::Mouse(MouseButton::Left)));
    let mouse_move = mouse_move_event(20.0, 10.0);
    push(&mut aggregator, press_left.clone());
    push(&mut aggregator, mouse_move.clone());

    let expected_drag = MouseDrag {
        button: MouseButton::Left,
        start: [0.0, 0.0],
        end: [20.0, 10.0],
        modifier: ModifierKey::no_modifier(),
        in_progress: true,
    };
    let mouse_drag = *drags(&aggregator).first().expect("Expected to get a mouse drag event");
    assert_eq!(expected_drag, mouse_drag);
}

#[test]
fn mouse_moved_less_than_threshold_creates_no_drag_event() {
    let mut aggregator = GlobalInput::new([0.0, 0.0]);
    push(&mut aggregator, press(Button::Mouse(MouseButton::Left)));
    push(&mut aggregator, mouse_move_event(2.0, 2.0));
    assert!(drags(&aggregator).is_empty());
    assert_eq!(aggregator.all_events().len(), 2);
}

#[test]
fn mouse_click_position_should_be_mouse_position_when_pressed() {
    let mut aggregator = GlobalInput::new([0.0, 0.0]);

    push(&mut aggregator, mouse_move_event(4.0, 5.0));
    push(&mut aggregator, UiEvent::Raw(Input::Press(Button::Mouse(MouseButton::Left))));
    push(&mut aggregator, mouse_move_event(5.0, 5.0));
    push(&mut aggregator, UiEvent::Raw(Input::Release(Button::Mouse(MouseButton::Left))));

    let expected_click = MouseClick {
        button: MouseButton::Left,
        location: [4.0, 5.0],
        modifier: ModifierKey::no_modifier(),
    };
    let actual_click = *clicks(&aggregator).first().expect("expected a mouse click event");

    assert_eq!(expected_click, actual_click);
}

#[test]
fn mouse_button_pressed_then_released_should_create_mouse_click_event() {
    let mut aggregator = GlobalInput::new([0.0, 0.0]);

    let press_left = UiEvent::Raw(Input::Press(Button::Mouse(MouseButton::Left)));
    let release_left = UiEvent::Raw(Input::Release(Button::Mouse(MouseButton::Left)));
    push(&mut aggregator, press_left.clone());
    push(&mut aggregator, release_left.clone());

    let expected_click = MouseClick {
        button: MouseButton::Left,
        location: [0.0, 0.0],
        modifier: ModifierKey::no_modifier(),
    };
    let actual_click = *clicks(&aggregator).first().expect("expected a mouse click event");

    assert_eq!(expected_click, actual_click);
    assert_eq!(
        aggregator.all_events().to_vec(),
        vec![press_left, release_left, UiEvent::MouseClick(expected_click)]
    );
}

#[test]
fn release_of_a_button_that_is_up_gives_no_click() {
    let mut aggregator = GlobalInput::new([0.0, 0.0]);
    push(&mut aggregator, release(Button::Mouse(MouseButton::Right)));
    assert!(clicks(&aggregator).is_empty());
    assert_eq!(aggregator.all_events().len(), 1);
}

#[test]
fn all_events_should_return_all_inputs_in_order() {
    let mut aggregator = GlobalInput::new([0.0, 0.0]);

    let evt1: Event = UiEvent::Raw(Input::Press(Button::Keyboard('z' as u32)));
    push(&mut aggregator, evt1.clone());
    let evt2: Event = UiEvent::Raw(Input::Press(Button::Keyboard('a' as u32)));
    push(&mut aggregator, evt2.clone());

    let results = aggregator.all_events();
    assert_eq!(2, results.len());
    assert_eq!(evt1, results[0]);
    assert_eq!(evt2, results[1]);
}

#[test]
fn starting_state_is_unchanged_until_reset() {
    let mut input = GlobalInput::new([1.0, 2.0]);
    push(&mut input, mouse_move_event(8.0, 9.0));
    assert_eq!(input.starting_state().mouse_position, [1.0, 2.0]);
    assert_eq!(input.mouse_position(), [8.0, 9.0]);
}

#[test]
fn mouse_button_pressed_moved_released_creates_final_drag_event() {
    let mut aggregator = GlobalInput::new([0.0, 0.0]);
    push(&mut aggregator, press(Button::Mouse(MouseButton::Left)));
    push(&mut aggregator, mouse_move_event(20.0, 10.0));
    push(&mut aggregator, release(Button::Mouse(MouseButton::Left)));

    let expected_drag = MouseDrag {
        button: MouseButton::Left,
        start: [0.0, 0.0],
        end: [20.0, 10.0],
        modifier: ModifierKey::no_modifier(),
        in_progress: false,
    };
    let mouse_drag = *drags(&aggregator).last().expect("Expected to get a mouse drag event");
    assert_eq!(expected_drag, mouse_drag);
    assert!(clicks(&aggregator).is_empty());
}

#[test]
fn drag_event_should_still_be_created_if_reset_is_called_between_press_and_release() {
    let mut aggregator = GlobalInput::new([0.0, 0.0]);
    push(&mut aggregator, press(Button::Mouse(MouseButton::Left)));
    push(&mut aggregator, mouse_move_event(50.0, 77.7));
    aggregator.reset();
    push(&mut aggregator, release(Button::Mouse(MouseButton::Left)));

    assert!(!drags(&aggregator).is_empty());
}

#[test]
fn click_event_should_still_be_created_if_reset_is_called_between_press_and_release() {
    let mut aggregator = GlobalInput::new([0.0, 0.0]);
    push(&mut aggregator, press(Button::Mouse(MouseButton::Left)));
    aggregator.reset();
    push(&mut aggregator, release(Button::Mouse(MouseButton::Left)));

    assert!(!clicks(&aggregator).is_empty());
}

#[test]
fn tests_no_events_should_be_returned_after_reset_is_called() {
    let mut aggregator = GlobalInput::new([0.0, 0.0]);
    push(&mut aggregator, press(Button::Keyboard(conrod::events::modifier::KEY_RSHIFT)));
    push(&mut aggregator, UiEvent::Raw(Input::Move(Motion::MouseScroll(7.0, 88.5))));
    push(&mut aggregator, press(Button::Mouse(MouseButton::Left)));
    push(&mut aggregator, mouse_move_event(60.0, 30.0));
    push(&mut aggregator, release(Button::Mouse(MouseButton::Left)));

    aggregator.reset();

    assert!(aggregator.all_events().is_empty());
    assert_eq!(aggregator.current_mouse_position(), [60.0, 30.0]);
}
