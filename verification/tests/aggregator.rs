use conrod::events::aggregator::ConrodEventAggregator;
use conrod::events::event_provider::{mouse_click, mouse_drag, mouse_left_click, mouse_left_drag};
use conrod::events::modifier::{ModifierKey, KEY_LCTRL};
use conrod::events::mouse_button::MouseButton;
use conrod::events::ui_event::{Button, Input, Motion, MouseClick, MouseDrag, UiEvent};

type Agg = ConrodEventAggregator<f64, ()>;

fn is_drag(a: [f64; 2], b: [f64; 2]) -> bool {
    ((a[0] - b[0]).powi(2) + (a[1] - b[1]).powi(2)).sqrt() > 4.0
}

fn push(agg: &mut Agg, event: UiEvent<f64, ()>) {
    agg.push_event(event, is_drag);
}

fn cursor(x: f64, y: f64) -> UiEvent<f64, ()> {
    UiEvent::Raw(Input::Move(Motion::MouseCursor(x, y)))
}

fn press_left() -> UiEvent<f64, ()> {
    UiEvent::Raw(Input::Press(Button::Mouse(MouseButton::Left)))
}

fn release_left() -> UiEvent<f64, ()> {
    UiEvent::Raw(Input::Release(Button::Mouse(MouseButton::Left)))
}

#[test]
fn aggregator_press_move_release_gives_final_drag() {
    let mut agg: Agg = ConrodEventAggregator::new([0.0, 0.0]);
    push(&mut agg, press_left());
    push(&mut agg, cursor(20.0, 10.0));
    push(&mut agg, release_left());
    let expected = MouseDrag {
        button: MouseButton::Left,
        start: [0.0, 0.0],
        end: [20.0, 10.0],
        modifier: ModifierKey::no_modifier(),
        in_progress: false,
    };
    assert_eq!(mouse_drag(agg.all_events(), MouseButton::Left), Some(expected));
    assert_eq!(mouse_left_click(agg.all_events()), None);
}

#[test]
fn aggregator_press_move_gives_drag_in_progress() {
    let mut agg: Agg = ConrodEventAggregator::new([0.0, 0.0]);
    push(&mut agg, press_left());
    push(&mut agg, cursor(20.0, 10.0));
    let drag = mouse_left_drag(agg.all_events()).expect("expected a drag");
    assert!(drag.in_progress);
    assert_eq!(drag.end, [20.0, 10.0]);
}

#[test]
fn aggregator_small_move_then_release_gives_click_where_pressed() {
    let mut agg: Agg = ConrodEventAggregator::new([0.0, 0.0]);
    push(&mut agg, cursor(4.0, 5.0));
    push(&mut agg, press_left());
    push(&mut agg, cursor(5.0, 5.0));
    push(&mut agg, release_left());
    let expected = MouseClick { button: MouseButton::Left, location: [4.0, 5.0], modifier: ModifierKey::no_modifier() };
    assert_eq!(mouse_click(agg.all_events(), MouseButton::Left), Some(expected));
    assert_eq!(mouse_left_drag(agg.all_events()), None);
}

#[test]
fn aggregator_drag_survives_reset_between_press_and_release() {
    let mut agg: Agg = ConrodEventAggregator::new([0.0, 0.0]);
    push(&mut agg, press_left());
    push(&mut agg, cursor(50.0, 77.7));
    agg.reset();
    assert!(agg.all_events().is_empty());
    push(&mut agg, release_left());
    assert!(mouse_left_drag(agg.all_events()).is_some());
}

#[test]
fn aggregator_click_survives_reset_between_press_and_release() {
    let mut agg: Agg = ConrodEventAggregator::new([0.0, 0.0]);
    push(&mut agg, press_left());
    agg.reset();
    push(&mut agg, release_left());
    assert!(mouse_left_click(agg.all_events()).is_some());
}

#[test]
fn aggregator_tracks_modifiers() {
    let mut agg: Agg = ConrodEventAggregator::new([0.0, 0.0]);
    push(&mut agg, UiEvent::Raw(Input::Press(Button::Keyboard(KEY_LCTRL))));
    assert_eq!(agg.modifiers(), ModifierKey::ctrl());
    push(&mut agg, press_left());
    push(&mut agg, release_left());
    let click = mouse_left_click(agg.all_events()).expect("expected a click");
    assert_eq!(click.modifier, ModifierKey::ctrl());
    push(&mut agg, UiEvent::Raw(Input::Release(Button::Keyboard(KEY_LCTRL))));
    assert_eq!(agg.modifiers(), ModifierKey::no_modifier());
}

