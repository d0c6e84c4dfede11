use conrod::events::mouse_button::{MouseButton, NUM_MOUSE_BUTTONS};
use conrod::mouse::button_map::ButtonMap;
use conrod::mouse::simple_events::{MouseButtonDown, MouseClick, MouseDragEvent, Scroll, SimpleMouseEvent};
use conrod::mouse::{ButtonPosition, ButtonState, Mouse};
use std::time::Instant;

const DRAG_DISTANCE_THRESHOLD: f64 = 2.0;

fn new_mouse() -> Mouse<f64, Instant> {
    Mouse::new(0.0, DRAG_DISTANCE_THRESHOLD)
}

fn distance_between(a: [f64; 2], b: [f64; 2]) -> f64 {
    let dx_2 = (a[0] - b[0]).powi(2);
    let dy_2 = (a[1] - b[1]).powi(2);
    (dx_2 + dy_2).abs().sqrt()
}

fn is_drag(threshold: f64) -> impl Fn([f64; 2], [f64; 2]) -> bool {
    move |start, end| distance_between(start, end) >= threshold
}

fn assert_float_eq(a: f64, b: f64) {
    assert!((a - b).abs() < 0.000001, "expected {} to equal {}", a, b);
}

#[test]
fn reset_should_reset_all_button_states_and_scroll_state() {
    let mut mouse = new_mouse();
    for button in mouse.buttons.iter_mut().iter_mut() {
        button.was_just_pressed = true;
        button.was_just_released = true;
    }
    mouse.scroll.x = 10.0;
    mouse.scroll.y = 20.0;
    mouse.maybe_scroll_event = Some(SimpleMouseEvent::Scroll(Scroll { x: 2.0, y: 33.3 }));

    mouse.reset(0.0);

    for button in mouse.buttons.iter() {
        assert!(!button.was_just_pressed);
        assert!(!button.was_just_released);
    }
    assert_eq!(0.0, mouse.scroll.x);
    assert_eq!(0.0, mouse.scroll.y);
    assert!(mouse.maybe_scroll_event.is_none());
    let mut events = mouse.events();
    assert!(events.next().is_none());
}

#[test]
fn scroll_should_create_a_new_scroll_event() {
    let mut mouse = new_mouse();
    mouse.scroll(2.0, 3.0);

    match mouse.maybe_scroll_event {
        Some(SimpleMouseEvent::Scroll(scroll_info)) => {
            assert_eq!(2.0, scroll_info.x);
            assert_eq!(3.0, scroll_info.y);
        },
        Some(thing) => panic!("Expected a SimpleMouseEvent::Scroll, instead got: {:?}", thing),
        _ => panic!("expected a SimpleMouseEvent::Scroll, instead got None"),
    }
}

#[test]
fn mod_move_to_sets_new_mouse_position() {
    let mut mouse = new_mouse();

    let new_position = [2.0, 5.0];
    mouse.move_to(new_position, Instant::now(), is_drag(mouse.drag_distance_threshold));
    assert_eq!(new_position, mouse.xy);
}

#[test]
fn mod_button_down_sets_button_state_to_down() {
    let mut mouse = new_mouse();
    mouse.buttons.get_mut(MouseButton::Left).position = ButtonPosition::Up;

    mouse.button_down(MouseButton::Left, Instant::now());
    let button_state = mouse.buttons.get(MouseButton::Left);
    assert!(button_state.is_down());
    assert!(button_state.was_just_pressed);
}

#[test]
fn mod_button_up_sets_button_state_to_up() {
    let mut mouse = new_mouse();
    mouse.buttons.update(MouseButton::Left, |state| ButtonState {
        position: ButtonPosition::Down(MouseButtonDown { time: Instant::now(), position: [0.0, 0.0] }),
        ..state
    });

    mouse.button_up(MouseButton::Left, Instant::now(), is_drag(mouse.drag_distance_threshold));

    let state = mouse.buttons.get(MouseButton::Left);
    assert_eq!(ButtonPosition::Up, state.position);
    assert!(state.was_just_released);
}

#[test]
fn events_returns_click_if_button_goes_down_then_up_in_same_position() {
    let mut mouse = new_mouse();
    mouse.button_down(MouseButton::Right, Instant::now());
    mouse.button_up(MouseButton::Right, Instant::now(), is_drag(mouse.drag_distance_threshold));
    let expected_event = SimpleMouseEvent::Click(MouseClick { mouse_button: MouseButton::Right, position: mouse.xy });

    let actual_event = mouse.events().next();
    assert!(actual_event.is_some());
    assert_eq!(expected_event, actual_event.unwrap());
}

fn first_drag(mouse: &Mouse<f64, Instant>) -> MouseDragEvent<f64, Instant> {
    let actual_event = mouse.events().next();
    assert!(actual_event.is_some());
    let maybe_drag_event: Option<MouseDragEvent<f64, Instant>> = match actual_event {
        Some(SimpleMouseEvent::Drag(mouse_drag_info)) => Some(mouse_drag_info),
        _ => None,
    };
    assert!(maybe_drag_event.is_some());
    maybe_drag_event.unwrap()
}

#[test]
fn events_returns_drag_event_if_mouse_was_dragged_without_releasing_button() {
    let mut mouse = new_mouse();
    let start_position = mouse.xy;
    let new_position = [0.0, mouse.drag_distance_threshold + 1.0];
    mouse.button_down(MouseButton::Left, Instant::now());
    mouse.move_to(new_position, Instant::now(), is_drag(mouse.drag_distance_threshold));

    let drag_event = first_drag(&mouse);
    assert_eq!(start_position, drag_event.start.position);
    assert_eq!(new_position, drag_event.current.position);
    assert!(!drag_event.button_released);
}

#[test]
fn drag_event_is_not_created_when_mouse_is_dragged_less_than_threshold() {
    let mut mouse = new_mouse();
    let new_position = [0.0, mouse.drag_distance_threshold - 1.0];
    mouse.button_down(MouseButton::Left, Instant::now());
    mouse.move_to(new_position, Instant::now(), is_drag(mouse.drag_distance_threshold));

    let actual_event = mouse.events().next();
    assert!(actual_event.is_none());
}

#[test]
fn events_returns_drag_event_if_mouse_was_dragged_then_button_released() {
    let mut mouse = new_mouse();
    let start_position = mouse.xy;
    let new_position = [0.0, mouse.drag_distance_threshold + 1.0];
    mouse.button_down(MouseButton::Left, Instant::now());
    mouse.move_to(new_position, Instant::now(), is_drag(mouse.drag_distance_threshold));
    mouse.button_up(MouseButton::Left, Instant::now(), is_drag(mouse.drag_distance_threshold));

    let drag_event = first_drag(&mouse);
    assert_eq!(start_position, drag_event.start.position);
    assert_eq!(new_position, drag_event.current.position);
    assert!(drag_event.button_released);
}

#[test]
fn drag_event_has_original_start_position_after_multiple_mouse_move_events() {
    let mut mouse = new_mouse();
    let start_position = mouse.xy;
    let final_position = [0.0, mouse.drag_distance_threshold + 1.0];
    mouse.button_down(MouseButton::Left, Instant::now());
    mouse.move_to([-5.0, 10.0], Instant::now(), is_drag(mouse.drag_distance_threshold));
    mouse.move_to(final_position, Instant::now(), is_drag(mouse.drag_distance_threshold));

    let drag_event = first_drag(&mouse);
    assert_eq!(start_position, drag_event.start.position);
    assert_eq!(final_position, drag_event.current.position);
}

#[test]
fn mod_get_simple_event_returns_click_event_if_mouse_was_dragged_less_than_drag_threshold() {
    let mut mouse = new_mouse();
    let new_position = [0.0, mouse.drag_distance_threshold - 1.0];
    mouse.button_down(MouseButton::Left, Instant::now());
    mouse.move_to(new_position, Instant::now(), is_drag(mouse.drag_distance_threshold));
    mouse.button_up(MouseButton::Left, Instant::now(), is_drag(mouse.drag_distance_threshold));

    let actual_event = mouse.events().next();
    assert!(actual_event.is_some());
    let maybe_click_event: Option<MouseClick<f64>> = match actual_event {
        Some(SimpleMouseEvent::Click(mouse_click)) => Some(mouse_click),
        _ => None,
    };
    assert!(maybe_click_event.is_some());
    let click_event = maybe_click_event.unwrap();
    assert_eq!(new_position, click_event.position);
}

#[test]
fn relative_to_changes_all_mouse_events_to_relative_positions() {
    let mut map_a: ButtonMap<f64, Instant> = ButtonMap::new();
    map_a.update(MouseButton::Left, |state| ButtonState {
        event: Some(SimpleMouseEvent::Click(MouseClick { mouse_button: MouseButton::Left, position: [10.0, 50.5] })),
        ..state
    });
    map_a.update(MouseButton::Button6, |state| ButtonState {
        event: Some(SimpleMouseEvent::Drag(MouseDragEvent {
            mouse_button: MouseButton::Button6,
            start: MouseButtonDown { time: Instant::now(), position: [20.2, 30.0] },
            current: MouseButtonDown { time: Instant::now(), position: [40.4, 60.0] },
            button_released: true,
        })),
        ..state
    });

    let map_b = map_a.relative_to([10.0, 10.0]);

    let left_state = map_b.get(MouseButton::Left);
    if let Some(SimpleMouseEvent::Click(click)) = left_state.event {
        assert_float_eq(0.0, click.position[0]);
        assert_float_eq(40.5, click.position[1]);
    } else {
        panic!("Expected click event, got: {:?}", left_state.event);
    }

    let state_6 = map_b.get(MouseButton::Button6);
    if let Some(SimpleMouseEvent::Drag(drag)) = state_6.event {
        assert_float_eq(10.2, drag.start.position[0]);
        assert_float_eq(20.0, drag.start.position[1]);
        assert_float_eq(30.4, drag.current.position[0]);
        assert_float_eq(50.0, drag.current.position[1]);
    } else {
        panic!("Expected a drag event, but got: {:?}", state_6.event);
    }
}

#[test]
fn button_map_examples() {
    let map: ButtonMap<f64, Instant> = ButtonMap::new();
    assert!(map.get(MouseButton::Left).is_up());
    assert_eq!(NUM_MOUSE_BUTTONS, map.all_buttons().len());

    let mut map: ButtonMap<f64, Instant> = ButtonMap::new();
    map.get_mut(MouseButton::Right).was_just_pressed = true;
    assert!(map.get(MouseButton::Right).was_just_pressed);
    map.update(MouseButton::Right, |state| ButtonState { was_just_released: true, ..state });
    assert!(map.get(MouseButton::Right).was_just_released);
    assert_eq!(MouseButton::Middle, map.all_buttons()[3].0);
}

#[test]
fn events_give_button_events_in_order_then_the_scroll_event_repeatedly() {
    let mut mouse: Mouse<i64, u32> = Mouse::new(0, 2);
    mouse.button_down(MouseButton::Middle, 1);
    mouse.button_up(MouseButton::Middle, 2, |_, _| false);
    mouse.button_down(MouseButton::Left, 3);
    mouse.move_to([0, 5], 4, |_, _| true);
    mouse.scroll(7, -1);
    let mut events = mouse.events();
    assert_eq!(
        events.next(),
        Some(SimpleMouseEvent::Drag(MouseDragEvent {
            mouse_button: MouseButton::Left,
            start: MouseButtonDown { time: 3, position: [0, 0] },
            current: MouseButtonDown { time: 4, position: [0, 5] },
            button_released: false,
        }))
    );
    assert_eq!(
        events.next(),
        Some(SimpleMouseEvent::Click(MouseClick { mouse_button: MouseButton::Middle, position: [0, 0] }))
    );
    assert_eq!(events.next(), Some(SimpleMouseEvent::Scroll(Scroll { x: 7, y: -1 })));
    assert_eq!(events.next(), Some(SimpleMouseEvent::Scroll(Scroll { x: 7, y: -1 })));
}

#[test]
fn releasing_a_button_that_is_up_clears_its_event() {
    let mut mouse: Mouse<i64, u32> = Mouse::new(0, 2);
    mouse.buttons.get_mut(MouseButton::Left).event =
        Some(SimpleMouseEvent::Click(MouseClick { mouse_button: MouseButton::Left, position: [1, 1] }));
    mouse.button_up(MouseButton::Left, 9, |_, _| true);
    let state = *mouse.buttons.get(MouseButton::Left);
    assert!(state.event.is_none());
    assert!(state.was_just_released);
}

#[test]
fn mouse_relative_to_moves_position_and_button_events() {
    let mut mouse: Mouse<i64, u32> = Mouse::new(0, 2);
    mouse.move_to([10, 20], 0, |_, _| false);
    mouse.button_down(MouseButton::Left, 1);
    mouse.button_up(MouseButton::Left, 2, |_, _| false);
    let relative = mouse.relative_to([4, 5]);
    assert_eq!(relative.xy, [6, 15]);
    assert_eq!(
        relative.buttons.get(MouseButton::Left).event,
        Some(SimpleMouseEvent::Click(MouseClick { mouse_button: MouseButton::Left, position: [6, 15] }))
    );
}
