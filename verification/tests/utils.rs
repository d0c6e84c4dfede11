use conrod::position::axis::{Align, Direction};
use conrod::utils::{clamp, iter_diff, iter_eq, modulo, partial_max, partial_min, vec2_add, vec2_sub, write_if_different, IterDiff};
use std::borrow::Cow;

#[test]
fn min_max_and_clamp() {
    assert_eq!(partial_min(3, 5), 3);
    assert_eq!(partial_max(3, 5), 5);
    assert_eq!(partial_min(2.5, -1.0), -1.0);
    assert_eq!(clamp(7, 0, 5), 5);
    assert_eq!(clamp(-2, 0, 5), 0);
    assert_eq!(clamp(3, 0, 5), 3);
    assert_eq!(clamp(7, 5, 0), 5);
    assert_eq!(clamp(-2, 5, 0), 0);
    assert_eq!(clamp(0.5, 0.0, 1.0), 0.5);
}

#[test]
fn modulo_takes_the_sign_of_the_divisor() {
    assert_eq!(modulo(7, 3), 1);
    assert_eq!(modulo(-7, 3), 2);
    assert_eq!(modulo(7, -3), -2);
    assert_eq!(modulo(-7, -3), -1);
    assert_eq!(modulo(6, 3), 0);
    assert_eq!(modulo(-6, -3), 0);
}

#[test]
fn vec2_arithmetic() {
    assert_eq!(vec2_add([1.0, 2.0], [3.0, 4.0]), [4.0, 6.0]);
    assert_eq!(vec2_sub([1, 2], [3, 5]), [-2, -3]);
}

#[test]
fn iter_diff_reports_the_difference() {
    assert!(iter_diff(&[1, 2, 3], vec![1, 2, 3]).is_none());
    match iter_diff(&[1, 2, 3], vec![1, 9, 3, 4]) {
        Some(IterDiff::FirstMismatch(1, rest)) => assert_eq!(rest, vec![9, 3, 4]),
        _ => panic!("expected a mismatch"),
    }
    match iter_diff(&[1, 2], vec![1, 2, 3]) {
        Some(IterDiff::Longer(rest)) => assert_eq!(rest, vec![3]),
        _ => panic!("expected longer"),
    }
    match iter_diff(&[1, 2, 3], vec![1]) {
        Some(IterDiff::Shorter(1)) => {},
        _ => panic!("expected shorter"),
    }
}

#[test]
fn write_if_different_borrows_only_when_equal() {
    let elems = [1, 2, 3];
    match write_if_different(&elems, vec![1, 2, 3]) {
        Cow::Borrowed(b) => assert_eq!(b, &[1, 2, 3]),
        Cow::Owned(_) => panic!("expected borrowed"),
    }
    match write_if_different(&elems, vec![1, 5]) {
        Cow::Owned(v) => assert_eq!(v, vec![1, 5]),
        Cow::Borrowed(_) => panic!("expected owned"),
    }
    match write_if_different(&elems, vec![1, 2]) {
        Cow::Owned(v) => assert_eq!(v, vec![1, 2]),
        Cow::Borrowed(_) => panic!("expected owned"),
    }
    match write_if_different(&elems, vec![1, 2, 3, 4]) {
        Cow::Owned(v) => assert_eq!(v, vec![1, 2, 3, 4]),
        Cow::Borrowed(_) => panic!("expected owned"),
    }
}

#[test]
fn iter_eq_compares_all_elements() {
    assert!(iter_eq(&[1, 2, 3], &[1, 2, 3]));
    assert!(!iter_eq(&[1, 2, 3], &[1, 2]));
    assert!(!iter_eq(&[1, 2], &[1, 3]));
    assert!(iter_eq::<u8>(&[], &[]));
    assert_eq!(iter_eq(&[4, 5], &[4, 5]), iter_diff(&[4, 5], vec![4, 5]).is_none());
}

#[test]
fn json_names() {
    assert_eq!(Direction::Forwards.into_json(), "Forwards");
    assert_eq!(Direction::Backwards.into_json(), "Backwards");
    assert_eq!(Align::Start.into_json(), "Start");
    assert_eq!(Align::Middle.into_json(), "Middle");
    assert_eq!(Align::End.into_json(), "End");
}

#[test]
fn truncate_val_string_keeps_texts_without_decimal_point() {
    assert_eq!(conrod::utils::truncate_val_string("12345", 2, 100), "12345");
}

#[test]
fn truncate_val_string_cuts_to_the_pixel_precision() {
    // Pixel range 100 gives a precision of 2 digits: the text is cut to 3 + 2 - 1 = 4 chars,
    // unless the decimal point's position plus 2 is shorter.
    assert_eq!(conrod::utils::truncate_val_string("1.23456", 3, 100), "1.2");
    assert_eq!(conrod::utils::truncate_val_string("12.3456", 5, 100), "12.3");
    assert_eq!(conrod::utils::truncate_val_string("123.456", 2, 1000), "123.");
    assert_eq!(conrod::utils::truncate_val_string("0.5", 9, 10), "0.");
}

#[test]
fn truncate_val_string_keeps_short_texts() {
    assert_eq!(conrod::utils::truncate_val_string("1.5", 9, 1000), "1.5");
}
