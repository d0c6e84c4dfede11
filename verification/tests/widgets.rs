use conrod::mouse_state::{MouseButtonState, MouseState};
use conrod::number_dialer;
use conrod::rectangle;
use conrod::slider;
use conrod::text_box;
use conrod::toggle;

fn mouse(left: MouseButtonState, y: f64) -> MouseState<[f64; 2]> {
    MouseState::new([0.0, y], left, MouseButtonState::Up, MouseButtonState::Up)
}

const UP: MouseButtonState = MouseButtonState::Up;
const DOWN: MouseButtonState = MouseButtonState::Down;

#[test]
fn slider_state_follows_the_mouse() {
    assert_eq!(slider::get_new_state(true, slider::State::Normal, mouse(DOWN, 0.0)), slider::State::Normal);
    assert_eq!(slider::get_new_state(true, slider::State::Normal, mouse(UP, 0.0)), slider::State::Highlighted);
    assert_eq!(slider::get_new_state(true, slider::State::Highlighted, mouse(DOWN, 0.0)), slider::State::Clicked);
    assert_eq!(slider::get_new_state(false, slider::State::Clicked, mouse(DOWN, 0.0)), slider::State::Clicked);
    assert_eq!(slider::get_new_state(false, slider::State::Clicked, mouse(UP, 0.0)), slider::State::Normal);
    assert_eq!(slider::get_new_state(true, slider::State::Clicked, mouse(UP, 0.0)), slider::State::Highlighted);
    assert_eq!(slider::get_new_state(false, slider::State::Highlighted, mouse(DOWN, 0.0)), slider::State::Normal);
    assert_eq!(slider::State::Clicked.as_rectangle_state(), rectangle::State::Clicked);
    assert_eq!(slider::State::Normal.as_rectangle_state(), rectangle::State::Normal);
    assert_eq!(slider::State::Highlighted.as_rectangle_state(), rectangle::State::Highlighted);
}

#[test]
fn toggle_state_follows_the_mouse() {
    assert_eq!(toggle::get_new_state(true, toggle::State::Normal, mouse(DOWN, 0.0)), toggle::State::Normal);
    assert_eq!(toggle::get_new_state(true, toggle::State::Highlighted, mouse(DOWN, 0.0)), toggle::State::Clicked);
    assert_eq!(toggle::get_new_state(false, toggle::State::Clicked, mouse(DOWN, 0.0)), toggle::State::Clicked);
    assert_eq!(toggle::get_new_state(false, toggle::State::Normal, mouse(UP, 0.0)), toggle::State::Normal);
    assert_eq!(toggle::State::Highlighted.as_rectangle_state(), rectangle::State::Highlighted);
}

#[test]
fn text_box_click_on_text_captures_keyboard() {
    let normal: text_box::State<f64> = text_box::State(text_box::DrawState::Normal, text_box::Capturing::Uncaptured);
    let hovered = text_box::get_new_state(text_box::Element::Text(2, 14.0), normal, mouse(UP, 0.0));
    assert_eq!(hovered, text_box::State(text_box::DrawState::Highlighted(text_box::Element::Text(2, 14.0)), text_box::Capturing::Uncaptured));
    let pressed = text_box::get_new_state(text_box::Element::Text(2, 14.0), hovered, mouse(DOWN, 0.0));
    assert_eq!(pressed, text_box::State(text_box::DrawState::Clicked(text_box::Element::Text(2, 14.0)), text_box::Capturing::Uncaptured));
    let released = text_box::get_new_state(text_box::Element::Text(3, 20.0), pressed, mouse(UP, 0.0));
    assert_eq!(released, text_box::State(text_box::DrawState::Highlighted(text_box::Element::Text(3, 20.0)), text_box::Capturing::Captured(3, 20.0)));
    assert_eq!(released.as_rectangle_state(), rectangle::State::Normal);
    assert_eq!(pressed.as_rectangle_state(), rectangle::State::Clicked);
}

#[test]
fn text_box_click_off_box_releases_capture() {
    let captured: text_box::State<f64> = text_box::State(text_box::DrawState::Highlighted(text_box::Element::Nill), text_box::Capturing::Captured(1, 5.0));
    let pressed = text_box::get_new_state(text_box::Element::Nill, captured, mouse(DOWN, 0.0));
    assert_eq!(pressed, text_box::State(text_box::DrawState::Clicked(text_box::Element::Nill), text_box::Capturing::Captured(1, 5.0)));
    let released = text_box::get_new_state(text_box::Element::Nill, pressed, mouse(UP, 0.0));
    assert_eq!(released, text_box::State(text_box::DrawState::Normal, text_box::Capturing::Uncaptured));
    let over_rect = text_box::get_new_state(text_box::Element::Rect, captured, mouse(UP, 0.0));
    assert_eq!(over_rect, text_box::State(text_box::DrawState::Highlighted(text_box::Element::Rect), text_box::Capturing::Captured(1, 5.0)));
}

#[test]
fn number_dialer_state_tracks_value_glyph_drag() {
    let normal: number_dialer::State<f64> = number_dialer::State::Normal;
    let hover = number_dialer::get_new_state(Some(number_dialer::Element::ValueGlyph(1, 3.0)), normal, mouse(UP, 3.0));
    assert_eq!(hover, number_dialer::State::Highlighted(number_dialer::Element::ValueGlyph(1, 3.0)));
    let press = number_dialer::get_new_state(Some(number_dialer::Element::ValueGlyph(1, 3.0)), hover, mouse(DOWN, 3.0));
    assert_eq!(press, number_dialer::State::Clicked(number_dialer::Element::ValueGlyph(1, 3.0)));
    let dragged = number_dialer::get_new_state(None, press, mouse(DOWN, 9.0));
    assert_eq!(dragged, number_dialer::State::Clicked(number_dialer::Element::ValueGlyph(1, 9.0)));
    let released = number_dialer::get_new_state(None, dragged, mouse(UP, 9.0));
    assert_eq!(released, number_dialer::State::Normal);
    let outside_press = number_dialer::get_new_state(Some(number_dialer::Element::Rect), number_dialer::State::Normal, mouse(DOWN, 0.0));
    assert_eq!(outside_press, number_dialer::State::Normal);
}

#[test]
fn create_val_string_pads_and_sets_precision() {
    assert_eq!(number_dialer::create_val_string("5", 4, 0), "0005");
    assert_eq!(number_dialer::create_val_string("5", 4, 2), "5.00");
    assert_eq!(number_dialer::create_val_string("5", 6, 2), "005.00");
    assert_eq!(number_dialer::create_val_string("3.14159", 4, 2), "3.14");
    assert_eq!(number_dialer::create_val_string("3.1", 5, 3), "3.100");
    assert_eq!(number_dialer::create_val_string("3.7", 1, 0), "3");
    assert_eq!(number_dialer::create_val_string("12.5", 7, 1), "00012.5");
    assert_eq!(number_dialer::create_val_string("123", 2, 0), "123");
}

#[test]
fn value_glyph_power_counts_from_the_decimal_point() {
    assert_eq!(number_dialer::value_glyph_power("123", 0), 2);
    assert_eq!(number_dialer::value_glyph_power("123", 2), 0);
    assert_eq!(number_dialer::value_glyph_power("12.34", 0), 1);
    assert_eq!(number_dialer::value_glyph_power("12.34", 1), 0);
    assert_eq!(number_dialer::value_glyph_power("12.34", 3), -1);
    assert_eq!(number_dialer::value_glyph_power("12.34", 4), -2);
}

#[test]
fn corner_of_halves_picks_the_quadrant() {
    assert_eq!(rectangle::corner_of_halves(false, false), rectangle::Corner::BottomLeft);
    assert_eq!(rectangle::corner_of_halves(true, false), rectangle::Corner::BottomRight);
    assert_eq!(rectangle::corner_of_halves(false, true), rectangle::Corner::TopLeft);
    assert_eq!(rectangle::corner_of_halves(true, true), rectangle::Corner::TopRight);
}

#[test]
fn mouse_state_new_keeps_its_fields() {
    let m = MouseState::new([1.0, 2.0], DOWN, UP, DOWN);
    assert_eq!(m.pos, [1.0, 2.0]);
    assert_eq!(m.left, DOWN);
    assert_eq!(m.middle, UP);
    assert_eq!(m.right, DOWN);
}
