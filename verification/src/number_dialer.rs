//! The number dialer widget: its states, the text that shows its value, and which power of ten
//! each glyph of that text stands for.
//!
//! `Y` is the type of the mouse's y position.

use vstd::prelude::*;
use vstd::string::StrSliceExecFns;
use crate::mouse_state::{MouseButtonState, MouseState};
use crate::utils::{decimal_point, lemma_decimal_point_at, lemma_no_decimal_point};

verus! {

/// Represents the specific elements that the NumberDialer is made up of. This is used to
/// specify which element is Highlighted or Clicked when storing State.
#[derive(Clone, Copy, Debug, PartialEq)]
pub enum Element<Y> {
    /// The box around the value.
    Rect,
    /// The glyphs of the label.
    LabelGlyphs,
    /// A value glyph slot at the given index, with the last y position of the mouse, to which
    /// a later position is compared to change the value.
    ValueGlyph(usize, Y),
}

/// Represents the state of the NumberDialer widget.
#[derive(Clone, Copy, Debug, PartialEq)]
pub enum State<Y> {
    /// Neither hovered nor pressed.
    Normal,
    /// The mouse is over the given element.
    Highlighted(Element<Y>),
    /// The given element is being pressed.
    Clicked(Element<Y>),
}

/// The element that stays clicked as the mouse moves to `y` with its button down: a value
/// glyph records the new y position, any other element stays as it is.
pub open spec fn dragged<Y>(elem: Element<Y>, y: Y) -> Element<Y> {
    match elem {
        Element::ValueGlyph(idx, _) => Element::ValueGlyph(idx, y),
        _ => elem,
    }
}

/// The state that follows `prev` when the mouse is over `over` (if over the widget) at height
/// `y`, with its left button `left`: a press that starts off the widget does not click it;
/// releasing over an element highlights it; pressing over a highlighted widget clicks the
/// element under the mouse; a click holds while the button stays down, even off the widget,
/// following the mouse's height on a value glyph; anything else is `Normal`.
pub open spec fn next_state<Y>(
    over: Option<Element<Y>>,
    prev: State<Y>,
    left: MouseButtonState,
    y: Y,
) -> State<Y> {
    match (over, prev, left) {
        (Some(_), State::Normal, MouseButtonState::Down) => State::Normal,
        (Some(elem), _, MouseButtonState::Up) => State::Highlighted(elem),
        (Some(elem), State::Highlighted(_), MouseButtonState::Down) => State::Clicked(elem),
        (Some(_), State::Clicked(p), MouseButtonState::Down) => State::Clicked(dragged(p, y)),
        (None, State::Clicked(p), MouseButtonState::Down) => State::Clicked(dragged(p, y)),
        _ => State::Normal,
    }
}

/// Check and return the current state of the NumberDialer (see `next_state`).
pub fn get_new_state<Y: Copy>(
    is_over_elem: Option<Element<Y>>,
    prev: State<Y>,
    mouse: MouseState<[Y; 2]>,
) -> (r: State<Y>)
    ensures
        r == next_state(is_over_elem, prev, mouse.left, mouse.pos[1]),
{
    match (is_over_elem, prev, mouse.left) {
        (Some(_), State::Normal, MouseButtonState::Down) => State::Normal,
        (Some(elem), _, MouseButtonState::Up) => State::Highlighted(elem),
        (Some(elem), State::Highlighted(_), MouseButtonState::Down) => State::Clicked(elem),
        (Some(_), State::Clicked(p_elem), MouseButtonState::Down) => match p_elem {
            Element::ValueGlyph(idx, _) => State::Clicked(Element::ValueGlyph(idx, mouse.pos[1])),
            _ => State::Clicked(p_elem),
        },
        (None, State::Clicked(p_elem), MouseButtonState::Down) => match p_elem {
            Element::ValueGlyph(idx, _) => State::Clicked(Element::ValueGlyph(idx, mouse.pos[1])),
            _ => State::Clicked(p_elem),
        },
        _ => State::Normal,
    }
}

/// While the left button stays down on a clicked value glyph, the dialer stays clicked on that
/// same glyph, which records the mouse's current height (so that the next change of value is
/// measured from there), whether or not the mouse is still over the widget; any other clicked
/// element stays clicked as it is.
pub proof fn law_drag_on_clicked_glyph_follows_mouse<Y>(
    over: Option<Element<Y>>,
    idx: usize,
    pressed_y: Y,
    y: Y,
    clicked: Element<Y>,
)
    ensures
        next_state(over, State::Clicked(Element::ValueGlyph(idx, pressed_y)), MouseButtonState::Down, y)
            == State::Clicked(Element::ValueGlyph(idx, y)),
        next_state(over, State::Clicked(clicked), MouseButtonState::Down, y) == next_state(
            None,
            State::Clicked(clicked),
            MouseButtonState::Down,
            y,
        ),
        !(clicked is ValueGlyph) ==> next_state(over, State::Clicked(clicked), MouseButtonState::Down, y)
            == State::Clicked(clicked),
{
}

/// How a press, a hover and a release move the dialer between its states, for any element and
/// any previous state: releasing the button over an element highlights that element; a press
/// that starts off the widget (from `Normal`) does not click it, while a press over the
/// highlighted widget clicks the element under the mouse; away from the widget, with no click
/// held, the dialer is `Normal`; and releasing a click off the widget leaves it `Normal`.
pub proof fn law_dialer_press_hover_release<Y>(elem: Element<Y>, prev: State<Y>, y: Y, hovered: Element<Y>)
    ensures
        next_state(Some(elem), prev, MouseButtonState::Up, y) == State::Highlighted(elem),
        next_state(Some(elem), State::Normal, MouseButtonState::Down, y) == State::<Y>::Normal,
        next_state(Some(elem), State::Highlighted(hovered), MouseButtonState::Down, y)
            == State::Clicked(elem),
        !(prev is Clicked) ==> next_state(None, prev, MouseButtonState::Down, y) == State::<Y>::Normal,
        next_state(None, prev, MouseButtonState::Up, y) == State::<Y>::Normal,
        next_state(Some(elem), prev, MouseButtonState::Down, y) is Clicked <==> !(prev is Normal),
{
}

/// `n` zeros.
pub open spec fn zeros(n: nat) -> Seq<char> {
    Seq::new(n, |i: int| '0')
}

/// `s` with exactly `precision` decimal places: without them a value gets a decimal point and
/// zeros; extra places are cut off, missing ones filled with zeros; a precision of 0 drops the
/// decimal point and what follows it.
pub open spec fn with_decimal_places(s: Seq<char>, precision: nat) -> Seq<char> {
    match decimal_point(s) {
        None => if precision == 0 {
            s
        } else {
            s.push('.') + zeros(precision)
        },
        Some(idx) => if precision == 0 {
            s.take(idx)
        } else {
            let desired_len = idx + precision + 1;
            if s.len() > desired_len {
                s.take(desired_len)
            } else {
                s + zeros((desired_len - s.len()) as nat)
            }
        },
    }
}

/// The text of a value whose formatted text is `s`: `s` with exactly `precision` decimal
/// places, with zeros put in front to make it at least `len` characters long.
pub open spec fn val_string(s: Seq<char>, len: nat, precision: nat) -> Seq<char> {
    let t = with_decimal_places(s, precision);
    if t.len() < len {
        zeros((len - t.len()) as nat) + t
    } else {
        t
    }
}

/// Appends a character to a string: std's `String::push`, which, as its documentation says,
/// adds the character at the end.
#[verifier::external_body]
fn string_push(s: &mut String, c: char)
    ensures
        final(s)@ == old(s)@.push(c),
{
    s.push(c);
}

/// The position of the first `'.'` in `chars`, if any.
fn find_decimal_point(chars: &Vec<char>) -> (r: Option<usize>)
    ensures
        decimal_point(chars@) == (match r {
            Some(i) => Some(i as int),
            None => None,
        }),
        r matches Some(i) ==> i < chars@.len(),
{
    let mut i: usize = 0;
    while i < chars.len()
        invariant
            i <= chars@.len(),
            forall|j: int| 0 <= j < i ==> chars@[j] != '.',
        decreases chars@.len() - i,
    {
        if chars[i] == '.' {
            proof {
                lemma_decimal_point_at(chars@, i as int);
            }
            return Some(i);
        }
        i = i + 1;
    }
    proof {
        lemma_no_decimal_point(chars@);
    }
    None
}

fn push_zeros(chars: &mut Vec<char>, n: usize)
    requires
        old(chars)@.len() + n <= usize::MAX,
    ensures
        final(chars)@ == old(chars)@ + zeros(n as nat),
{
    let mut i: usize = 0;
    while i < n
        invariant
            i <= n,
            chars@ == old(chars)@ + zeros(i as nat),
        decreases n - i,
    {
        chars.push('0');
        i = i + 1;
        assert(chars@ =~= old(chars)@ + zeros(i as nat));
    }
}

/// Create the string to be drawn from the formatted value `val_string` (for instance the
/// value's `to_string()`), the minimum length `len` and the `precision`: see `val_string`.
/// Lengths count characters.
pub fn create_val_string(val_string: &str, len: usize, precision: u8) -> (r: String)
    requires
        val_string@.len() + precision + 1 <= usize::MAX,
    ensures
        r@ == self::val_string(val_string@, len as nat, precision as nat),
{
    let n = val_string.unicode_len();
    let mut chars: Vec<char> = Vec::new();
    let mut i: usize = 0;
    while i < n
        invariant
            i <= n,
            n == val_string@.len(),
            chars@ == val_string@.take(i as int),
        decreases n - i,
    {
        chars.push(val_string.get_char(i));
        i = i + 1;
        assert(chars@ =~= val_string@.take(i as int));
    }
    assert(chars@ =~= val_string@);
    let p = precision as usize;
    let ghost s0 = chars@;
    match find_decimal_point(&chars) {
        None => {
            if p != 0 {
                chars.push('.');
                push_zeros(&mut chars, p);
                assert(chars@ =~= s0.push('.') + zeros(p as nat));
            }
            assert(chars@ == with_decimal_places(s0, precision as nat));
        },
        Some(idx) => {
            if p == 0 {
                chars.truncate(idx);
                assert(chars@ =~= s0.take(idx as int));
                assert(chars@ == with_decimal_places(s0, precision as nat));
            } else {
                let desired_len = idx + p + 1;
                if chars.len() > desired_len {
                    chars.truncate(desired_len);
                    assert(chars@ =~= s0.take(desired_len as int));
                } else if chars.len() < desired_len {
                    let missing = desired_len - chars.len();
                    push_zeros(&mut chars, missing);
                } else {
                    assert(chars@ =~= s0 + zeros(0));
                }
                assert(chars@ == with_decimal_places(s0, precision as nat));
            }
        },
    }
    assert(chars@ =~= with_decimal_places(val_string@, precision as nat));
    let mut result = String::new();
    if chars.len() < len {
        let mut k: usize = 0;
        let missing = len - chars.len();
        while k < missing
            invariant
                k <= missing,
                result@ == zeros(k as nat),
            decreases missing - k,
        {
            string_push(&mut result, '0');
            k = k + 1;
            assert(result@ =~= zeros(k as nat));
        }
    }
    let ghost prefix = result@;
    let mut j: usize = 0;
    while j < chars.len()
        invariant
            j <= chars@.len(),
            result@ == prefix + chars@.take(j as int),
        decreases chars@.len() - j,
    {
        string_push(&mut result, chars[j]);
        j = j + 1;
        assert(result@ =~= prefix + chars@.take(j as int));
    }
    assert(chars@.take(chars@.len() as int) =~= chars@);
    result
}

/// The power of ten that the value glyph at `idx` of the value text stands for: counted from
/// the last glyph for a text without a decimal point, and from the decimal point otherwise,
/// where the glyphs after the point stand for negative powers.
pub open spec fn glyph_power(s: Seq<char>, idx: int) -> int {
    match decimal_point(s) {
        None => s.len() - idx - 1,
        Some(dec_idx) => {
            let power = dec_idx - idx - 1;
            if power < -1 {
                power + 1
            } else {
                power
            }
        },
    }
}

/// The power of ten by which dialing the value glyph at `idx` of the value text `val_string`
/// changes the value (see `glyph_power`). The index of a glyph lies within the text.
pub fn value_glyph_power(val_string: &str, idx: usize) -> (r: i64)
    requires
        idx < val_string@.len(),
        val_string@.len() <= i64::MAX,
    ensures
        r == glyph_power(val_string@, idx as int),
{
    let n = val_string.unicode_len();
    let mut i: usize = 0;
    while i < n
        invariant
            i <= n,
            n == val_string@.len(),
            n <= i64::MAX,
            idx < n,
            forall|j: int| 0 <= j < i ==> val_string@[j] != '.',
        decreases n - i,
    {
        if val_string.get_char(i) == '.' {
            proof {
                lemma_decimal_point_at(val_string@, i as int);
            }
            let power: i64 = i as i64 - idx as i64 - 1;
            if power < -1 {
                return power + 1;
            } else {
                return power;
            }
        }
        i = i + 1;
    }
    proof {
        lemma_no_decimal_point(val_string@);
    }
    (n - idx - 1) as i64
}

} // verus!
