use conrod::events::modifier::ModifierKey;
use conrod::events::mouse_button::MouseButton;
use conrod::events::ui_event::{Button, Input, Motion, MouseClick, MouseDrag, Scroll, UiEvent};

type Event = UiEvent<f64, ()>;

fn check_scroll_event_shoulbe_be_both_a_mouse_and_keyboard_event() {
    let scroll_event: Event = UiEvent::Scroll(Scroll { x: 0.0, y: 0.0, modifiers: ModifierKey::no_modifier() });
    assert!(scroll_event.is_mouse_event());
    assert!(scroll_event.is_keyboard_event());
}

fn check_is_keyboard_event_should_be_true_for_all_keyboard_events() {
    let keyboard_events: Vec<Event> = vec![
        UiEvent::Raw(Input::Press(Button::Keyboard('l' as u32))),
        UiEvent::Raw(Input::Release(Button::Keyboard('l' as u32))),
        UiEvent::Raw(Input::Text("wha?".to_string())),
    ];
    for event in keyboard_events {
        assert!(event.is_keyboard_event(), "{:?} should be a keyboard event", event);
    }

    let non_keyboard_events: Vec<Event> = vec![
        UiEvent::Raw(Input::Press(Button::Mouse(MouseButton::Left))),
        UiEvent::Raw(Input::Release(Button::Mouse(MouseButton::Left))),
        UiEvent::MouseClick(MouseClick {
            button: MouseButton::Left,
            location: [0.0, 0.0],
            modifier: ModifierKey::no_modifier(),
        }),
        UiEvent::MouseDrag(MouseDrag {
            button: MouseButton::Left,
            start: [0.0, 0.0],
            end: [0.0, 0.0],
            modifier: ModifierKey::no_modifier(),
            in_progress: true,
        }),
        UiEvent::Raw(Input::Move(Motion::MouseCursor(2.0, 3.0))),
        UiEvent::Raw(Input::Move(Motion::MouseRelative(2.0, 3.0))),
        UiEvent::Raw(Input::Move(Motion::MouseScroll(3.5, 6.5))),
    ];

    for event in non_keyboard_events {
        assert!(!event.is_keyboard_event(), "{:?} should not be a keyboard event", event);
    }
}

fn check_is_mouse_event_should_be_true_for_all_mouse_events() {
    let mouse_events: Vec<Event> = vec![
        UiEvent::Raw(Input::Press(Button::Mouse(MouseButton::Left))),
        UiEvent::Raw(Input::Release(Button::Mouse(MouseButton::Left))),
        UiEvent::MouseClick(MouseClick {
            button: MouseButton::Left,
            location: [0.0, 0.0],
            modifier: ModifierKey::no_modifier(),
        }),
        UiEvent::MouseDrag(MouseDrag {
            button: MouseButton::Left,
            start: [0.0, 0.0],
            end: [0.0, 0.0],
            modifier: ModifierKey::no_modifier(),
            in_progress: true,
        }),
        UiEvent::Raw(Input::Move(Motion::MouseCursor(2.0, 3.0))),
        UiEvent::Raw(Input::Move(Motion::MouseRelative(2.0, 3.0))),
        UiEvent::Raw(Input::Move(Motion::MouseScroll(3.5, 6.5))),
    ];
    for event in mouse_events {
        assert!(event.is_mouse_event(), "{:?}.is_mouse_event() == false", event);
    }

    let non_mouse_events: Vec<Event> = vec![
        UiEvent::Raw(Input::Press(Button::Keyboard('g' as u32))),
        UiEvent::Raw(Input::Release(Button::Keyboard('g' as u32))),
        UiEvent::Raw(Input::Move(Motion::Other(()))),
        UiEvent::Raw(Input::Text("rust is brown".to_string())),
        UiEvent::Raw(Input::Resize(0, 0)),
        UiEvent::Raw(Input::Focus(true)),
        UiEvent::Raw(Input::Cursor(true)),
    ];
    for event in non_mouse_events {
        assert!(!event.is_mouse_event(), "{:?}.is_mouse_event() == true", event);
    }
}

fn check_mouse_click_should_be_made_relative() {
    let original: Event = UiEvent::MouseClick(MouseClick {
        button: MouseButton::Middle,
        location: [30.0, -80.0],
        modifier: ModifierKey::shift(),
    });
    let relative = original.relative_to([10.0, 20.0]);

    if let UiEvent::MouseClick(click) = relative {
        assert_eq!([20.0, -100.0], click.location);
        assert_eq!(MouseButton::Middle, click.button);
        assert_eq!(ModifierKey::shift(), click.modifier);
    } else {
        panic!("expected a mouse click");
    }
}

fn check_mouse_drage_should_be_made_relative() {
    let original: Event = UiEvent::MouseDrag(MouseDrag {
        start: [20.0, 5.0],
        end: [50.0, 1.0],
        button: MouseButton::Left,
        modifier: ModifierKey::ctrl(),
        in_progress: false,
    });

    let relative = original.relative_to([-5.0, 5.0]);
    if let UiEvent::MouseDrag(drag) = relative {
        assert_eq!([25.0, 0.0], drag.start);
        assert_eq!([55.0, -4.0], drag.end);
        assert_eq!(MouseButton::Left, drag.button);
        assert_eq!(ModifierKey::ctrl(), drag.modifier);
        assert!(!drag.in_progress);
    } else {
        panic!("expected to get a drag event");
    }
}

fn check_mouse_cursor_should_be_made_relative() {
    let original: Event = UiEvent::Raw(Input::Move(Motion::MouseCursor(-44.0, 55.0)));
    let relative = original.relative_to([4.0, 5.0]);
    if let UiEvent::Raw(Input::Move(Motion::MouseCursor(x, y))) = relative {
        assert_eq!(-48.0, x);
        assert_eq!(50.0, y);
    } else {
        panic!("expected a mouse move event");
    }
}

fn check_mouse_relative_motion_should_be_made_relative() {
    let original: Event = UiEvent::Raw(Input::Move(Motion::MouseRelative(-2.0, -4.0)));
    let relative = original.relative_to([3.0, 3.0]);
    if let UiEvent::Raw(Input::Move(Motion::MouseRelative(x, y))) = relative {
        assert_eq!(-5.0, x);
        assert_eq!(-7.0, y);
    } else {
        panic!("expected a mouse relative motion event");
    }
}

#[test]
fn events_without_position_are_unchanged_by_relative_to() {
    let text: Event = UiEvent::Raw(Input::Text("abc".to_string()));
    assert_eq!(text.relative_to([1.0, 1.0]), text);
    let scroll: Event = UiEvent::Scroll(Scroll { x: 1.0, y: 2.0, modifiers: ModifierKey::alt() });
    assert_eq!(scroll.relative_to([1.0, 1.0]), scroll);
}

#[test]
fn touch_and_input_are_made_relative() {
    use_touch();
    let input: Input<f64, ()> = Input::Move(Motion::MouseCursor(10.0, 20.0));
    assert_eq!(input.relative_to([1.0, 2.0]), Input::Move(Motion::MouseCursor(9.0, 18.0)));
    let focus: Input<f64, ()> = Input::Focus(true);
    assert_eq!(focus.relative_to([1.0, 2.0]), Input::Focus(true));
    let click = MouseClick { button: MouseButton::Left, location: [5.0, 5.0], modifier: ModifierKey::no_modifier() };
    assert_eq!(click.relative_to([1.0, 1.0]).location, [4.0, 4.0]);
}

fn use_touch() {
    let t = conrod::input::touch::Touch {
        phase: conrod::input::touch::Phase::Move,
        id: conrod::input::touch::Id::new(3),
        xy: [10.0, -4.0],
    };
    let r = t.relative_to([2.0, 2.0]);
    assert_eq!(r.xy, [8.0, -6.0]);
    assert_eq!(r.phase, conrod::input::touch::Phase::Move);
    assert_eq!(r.id, conrod::input::touch::Id::new(3));
}

#[test]
fn ui_event_scroll_event_shoulbe_be_both_a_mouse_and_keyboard_event() {
    check_scroll_event_shoulbe_be_both_a_mouse_and_keyboard_event();
}

#[test]
fn conrod_event_scroll_event_shoulbe_be_both_a_mouse_and_keyboard_event() {
    check_scroll_event_shoulbe_be_both_a_mouse_and_keyboard_event();
}

#[test]
fn ui_event_is_keyboard_event_should_be_true_for_all_keyboard_events() {
    check_is_keyboard_event_should_be_true_for_all_keyboard_events();
}

#[test]
fn conrod_event_is_keyboard_event_should_be_true_for_all_keyboard_events() {
    check_is_keyboard_event_should_be_true_for_all_keyboard_events();
}

#[test]
fn ui_event_is_mouse_event_should_be_true_for_all_mouse_events() {
    check_is_mouse_event_should_be_true_for_all_mouse_events();
}

#[test]
fn conrod_event_is_mouse_event_should_be_true_for_all_mouse_events() {
    check_is_mouse_event_should_be_true_for_all_mouse_events();
}

#[test]
fn ui_event_mouse_click_should_be_made_relative() {
    check_mouse_click_should_be_made_relative();
}

#[test]
fn conrod_event_mouse_click_should_be_made_relative() {
    check_mouse_click_should_be_made_relative();
}

#[test]
fn ui_event_mouse_drage_should_be_made_relative() {
    check_mouse_drage_should_be_made_relative();
}

#[test]
fn conrod_event_mouse_drage_should_be_made_relative() {
    check_mouse_drage_should_be_made_relative();
}

#[test]
fn ui_event_mouse_cursor_should_be_made_relative() {
    check_mouse_cursor_should_be_made_relative();
}

#[test]
fn conrod_event_mouse_cursor_should_be_made_relative() {
    check_mouse_cursor_should_be_made_relative();
}

#[test]
fn ui_event_mouse_relative_motion_should_be_made_relative() {
    check_mouse_relative_motion_should_be_made_relative();
}

#[test]
fn conrod_event_mouse_relative_motion_should_be_made_relative() {
    check_mouse_relative_motion_should_be_made_relative();
}
