use conrod::event::{Drag, Event, Ui, Widget as WidgetEvent};
use conrod::events::input_state::InputState;
use conrod::events::modifier::ModifierKey;
use conrod::events::mouse_button::MouseButton;
use conrod::events::ui_event::{Button, Input, Motion, MouseClick};
use conrod::input::global::Global;
use conrod::input::widget::Widget;
use conrod::widget::{Index, NodeIndex};

type Ev = Event<f64, ()>;

fn global_with(start: InputState<f64>, events: Vec<Ev>) -> Global<InputState<f64>, Ev> {
    let mut g = Global::new(start);
    for e in events {
        g.push_event(e);
    }
    g
}

fn fresh() -> InputState<f64> {
    InputState::new([0.0, 0.0])
}

fn all_events(w: &Widget<f64, ()>) -> Vec<WidgetEvent<f64, ()>> {
    let mut events = w.events();
    let mut out = Vec::new();
    while let Some(e) = events.next() {
        out.push(e);
    }
    out
}

fn click(button: MouseButton, x: f64, y: f64) -> MouseClick<f64> {
    MouseClick { button, location: [x, y], modifier: ModifierKey::no_modifier() }
}

fn drag(button: MouseButton) -> Drag<f64> {
    Drag {
        button,
        origin: [0.0, 0.0],
        from: [0.0, 0.0],
        to: [10.0, 10.0],
        delta_xy: [10.0, 10.0],
        total_delta_xy: [10.0, 10.0],
        modifiers: ModifierKey::no_modifier(),
    }
}

#[test]
fn mouse_events_are_not_delivered_without_mouse_capture() {
    let idx = Index::Public(1);
    let g = global_with(
        fresh(),
        vec![
            Event::Raw(Input::Move(Motion::MouseCursor(30.0, 40.0))),
            Event::Raw(Input::Press(Button::Mouse(MouseButton::Left))),
            Event::Raw(Input::Cursor(true)),
            Event::Raw(Input::Resize(100, 200)),
        ],
    );
    let w = Widget::for_widget(idx, [10.0, 10.0], &g);
    assert_eq!(all_events(&w), vec![WidgetEvent::Raw(Input::Resize(100, 200))]);
}

#[test]
fn mouse_cursor_is_made_relative_while_capturing() {
    let idx = Index::Public(1);
    let g = global_with(
        fresh(),
        vec![
            Event::Ui(Ui::WidgetCapturesMouse(idx)),
            Event::Raw(Input::Move(Motion::MouseCursor(44.0, 55.0))),
            Event::Raw(Input::Move(Motion::MouseRelative(1.0, 2.0))),
            Event::Ui(Ui::WidgetUncapturesMouse(idx)),
            Event::Raw(Input::Move(Motion::MouseCursor(1.0, 1.0))),
        ],
    );
    let w = Widget::for_widget(idx, [4.0, 5.0], &g);
    assert_eq!(
        all_events(&w),
        vec![
            WidgetEvent::CapturesMouse,
            WidgetEvent::Raw(Input::Move(Motion::MouseCursor(40.0, 50.0))),
            WidgetEvent::Raw(Input::Move(Motion::MouseRelative(1.0, 2.0))),
            WidgetEvent::UncapturesMouse,
        ]
    );
}

#[test]
fn keyboard_events_follow_keyboard_capture_from_start_state() {
    let idx = Index::Internal(NodeIndex(7));
    let mut start = fresh();
    start.widget_capturing_keyboard = Some(idx);
    let g = global_with(
        start,
        vec![
            Event::Raw(Input::Text("hi".to_string())),
            Event::Raw(Input::Press(Button::Keyboard('a' as u32))),
            Event::Ui(Ui::WidgetCapturesKeyboard(Index::Public(2))),
            Event::Raw(Input::Release(Button::Keyboard('a' as u32))),
            Event::Raw(Input::Text("lost".to_string())),
        ],
    );
    let w = Widget::for_widget(idx, [0.0, 0.0], &g);
    assert_eq!(
        all_events(&w),
        vec![
            WidgetEvent::Raw(Input::Text("hi".to_string())),
            WidgetEvent::Raw(Input::Press(Button::Keyboard('a' as u32))),
        ]
    );
    let mut texts = w.text();
    assert_eq!(texts.next(), Some("hi".to_string()));
    assert_eq!(texts.next(), None);
}

#[test]
fn uncapture_of_another_widget_keeps_capture() {
    let idx = Index::Public(1);
    let g = global_with(
        fresh(),
        vec![
            Event::Ui(Ui::WidgetCapturesKeyboard(idx)),
            Event::Ui(Ui::WidgetUncapturesKeyboard(Index::Public(9))),
            Event::Raw(Input::Text("still".to_string())),
        ],
    );
    let w = Widget::for_widget(idx, [0.0, 0.0], &g);
    assert_eq!(
        all_events(&w),
        vec![WidgetEvent::CapturesKeyboard, WidgetEvent::Raw(Input::Text("still".to_string()))]
    );
}

#[test]
fn widget_input_should_provide_clicks_over_the_widget_by_button() {
    let idx = Index::Public(1);
    let g = global_with(
        fresh(),
        vec![
            Event::Ui(Ui::Click(Some(idx), click(MouseButton::Left, 10.0, 40.0))),
            Event::Ui(Ui::Click(Some(Index::Public(2)), click(MouseButton::Left, 1.0, 1.0))),
            Event::Ui(Ui::Click(Some(idx), click(MouseButton::Right, 20.0, 30.0))),
            Event::Ui(Ui::Click(None, click(MouseButton::Left, 5.0, 5.0))),
            Event::Ui(Ui::Drag(Some(idx), drag(MouseButton::Middle))),
        ],
    );
    let w = Widget::for_widget(idx, [0.0, 0.0], &g);
    let mut all = w.clicks();
    assert_eq!(all.next(), Some(click(MouseButton::Left, 10.0, 40.0)));
    assert_eq!(all.next(), Some(click(MouseButton::Right, 20.0, 30.0)));
    assert_eq!(all.next(), None);
    let mut right = w.clicks().right();
    assert_eq!(right.next(), Some(click(MouseButton::Right, 20.0, 30.0)));
    assert_eq!(right.next(), None);
    let mut left = w.clicks().left();
    assert_eq!(left.next(), Some(click(MouseButton::Left, 10.0, 40.0)));
    assert_eq!(left.next(), None);
    assert_eq!(w.clicks().middle().next(), None);
    let mut drags = w.drags().middle();
    assert_eq!(drags.next(), Some(drag(MouseButton::Middle)));
    assert_eq!(drags.next(), None);
    assert_eq!(w.drags().left().next(), None);
    assert_eq!(w.drags().button(MouseButton::Middle).next(), Some(drag(MouseButton::Middle)));
}

#[test]
fn mouse_should_return_none_if_another_widget_is_capturing_mouse() {
    let widget_xy = [30.0, 30.0];
    let global_input = global_with(
        fresh(),
        vec![
            Event::Ui(Ui::WidgetCapturesMouse(Index::Public(999))),
            Event::Raw(Input::Move(Motion::MouseRelative(30.0, 30.0))),
            Event::Raw(Input::Press(Button::Mouse(MouseButton::Left))),
        ],
    );

    let widget_input = Widget::for_widget(Index::Public(2), widget_xy, &global_input);

    assert!(widget_input.mouse().is_none());
}

#[test]
fn widget_input_should_provide_any_mouse_events_over_the_widgets_area_if_nothing_is_capturing_mouse() {
    let widget = Index::Public(4);
    let global_input = global_with(fresh(), vec![Event::Ui(Ui::Click(Some(widget), click(MouseButton::Left, 10.0, 10.0)))]);
    assert!(global_input.current.widget_capturing_mouse.is_none());

    // The widget's area spans from [0, 0] to [40, 40].
    let widget_input = Widget::for_widget(widget, [20.0, 20.0], &global_input);
    widget_input.clicks().left().next().expect("Expected to get a mouse click event");

    // Another widget's area spans from [-20, -20] to [0, 0].
    let another_widget = Index::Public(7);
    let another_widget_input = Widget::for_widget(another_widget, [-10.0, -10.0], &global_input);
    assert!(another_widget_input.clicks().left().next().is_none());
}

#[test]
fn mouse_of_the_capturing_widget_is_relative_to_it() {
    let idx = Index::Public(3);
    let mut start = fresh();
    start.widget_capturing_mouse = Some(idx);
    start.mouse_position = [25.0, 5.0];
    let g = global_with(start, vec![]);
    let w = Widget::for_widget(idx, [20.0, 10.0], &g);
    let mouse = w.mouse().expect("the capturing widget sees the mouse");
    assert_eq!(mouse.abs_xy(), [25.0, 5.0]);
    assert_eq!(mouse.rel_xy(), [5.0, -5.0]);
    assert!(mouse.is_over(|p: [f64; 2]| p[0] > 0.0 && p[0] < 40.0 && p[1] > 0.0 && p[1] < 20.0));
    assert!(mouse.buttons.get(MouseButton::Left).is_none());
}
