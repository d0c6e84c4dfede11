//! Convenience queries over the events of an update cycle, for the widgets that consume them:
//! the keys and buttons pressed and released, the text entered, the clicks, drags and scrolls.

use vstd::prelude::*;
use vstd::string::StringExecFns;
use vstd::std_specs::ops::AddSpec;
use crate::events::mouse_button::MouseButton;
use crate::events::ui_event::{Button, Input, MouseClick, MouseDrag, Scroll, UiEvent};

verus! {

/// The key codes of the key presses among `events`, in order.
pub open spec fn keys_pressed_in<S, X>(events: Seq<UiEvent<S, X>>) -> Seq<u32>
    decreases events.len(),
{
    if events.len() == 0 {
        Seq::empty()
    } else {
        let rest = keys_pressed_in(events.drop_last());
        match events.last() {
            UiEvent::Raw(Input::Press(Button::Keyboard(key))) => rest.push(key),
            _ => rest,
        }
    }
}

/// The key codes of the key releases among `events`, in order.
pub open spec fn keys_released_in<S, X>(events: Seq<UiEvent<S, X>>) -> Seq<u32>
    decreases events.len(),
{
    if events.len() == 0 {
        Seq::empty()
    } else {
        let rest = keys_released_in(events.drop_last());
        match events.last() {
            UiEvent::Raw(Input::Release(Button::Keyboard(key))) => rest.push(key),
            _ => rest,
        }
    }
}

/// The mouse buttons pressed among `events`, in order.
pub open spec fn buttons_pressed_in<S, X>(events: Seq<UiEvent<S, X>>) -> Seq<MouseButton>
    decreases events.len(),
{
    if events.len() == 0 {
        Seq::empty()
    } else {
        let rest = buttons_pressed_in(events.drop_last());
        match events.last() {
            UiEvent::Raw(Input::Press(Button::Mouse(b))) => rest.push(b),
            _ => rest,
        }
    }
}

/// The mouse buttons released among `events`, in order.
pub open spec fn buttons_released_in<S, X>(events: Seq<UiEvent<S, X>>) -> Seq<MouseButton>
    decreases events.len(),
{
    if events.len() == 0 {
        Seq::empty()
    } else {
        let rest = buttons_released_in(events.drop_last());
        match events.last() {
            UiEvent::Raw(Input::Release(Button::Mouse(b))) => rest.push(b),
            _ => rest,
        }
    }
}

/// All the text entered among `events`, in order.
pub open spec fn text_in<S, X>(events: Seq<UiEvent<S, X>>) -> Seq<char>
    decreases events.len(),
{
    if events.len() == 0 {
        Seq::empty()
    } else {
        let rest = text_in(events.drop_last());
        match events.last() {
            UiEvent::Raw(Input::Text(t)) => rest + t@,
            _ => rest,
        }
    }
}

/// The last drag of the given button among `events`, if any.
pub open spec fn last_drag<S, X>(events: Seq<UiEvent<S, X>>, button: MouseButton) -> Option<
    MouseDrag<S>,
>
    decreases events.len(),
{
    if events.len() == 0 {
        None
    } else {
        match events.last() {
            UiEvent::MouseDrag(d) if d.button == button => Some(d),
            _ => last_drag(events.drop_last(), button),
        }
    }
}

/// The first click of the given button among `events`, if any.
pub open spec fn first_click<S, X>(events: Seq<UiEvent<S, X>>, button: MouseButton) -> Option<
    MouseClick<S>,
>
    decreases events.len(),
{
    if events.len() == 0 {
        None
    } else {
        match first_click(events.drop_last(), button) {
            Some(c) => Some(c),
            None => match events.last() {
                UiEvent::MouseClick(c) if c.button == button => Some(c),
                _ => None,
            },
        }
    }
}

/// The total of the scroll events among `events`: the amounts added up, with the modifiers of
/// the last scroll; `None` without a scroll event.
pub open spec fn scroll_total<S: std::ops::Add<Output = S>, X>(events: Seq<UiEvent<S, X>>) -> Option<
    Scroll<S>,
>
    decreases events.len(),
{
    if events.len() == 0 {
        None
    } else {
        let rest = scroll_total(events.drop_last());
        match events.last() {
            UiEvent::Scroll(s) => match rest {
                Some(acc) => Some(
                    Scroll { x: acc.x.add_spec(s.x), y: acc.y.add_spec(s.y), modifiers: s.modifiers },
                ),
                None => Some(s),
            },
            _ => rest,
        }
    }
}

/// Whether each addition that totalling the scroll events among `events` makes is defined: the
/// amounts of each scroll added to the total of the scrolls before it.
pub open spec fn scroll_sums_ok<S: std::ops::Add<Output = S>, X>(events: Seq<UiEvent<S, X>>) -> bool
    decreases events.len(),
{
    if events.len() == 0 {
        true
    } else {
        &&& scroll_sums_ok(events.drop_last())
        &&& match (events.last(), scroll_total(events.drop_last())) {
            (UiEvent::Scroll(s), Some(acc)) => acc.x.add_req(s.x) && acc.y.add_req(s.y),
            _ => true,
        }
    }
}

proof fn lemma_scroll_sums_ok_prefix<S: std::ops::Add<Output = S>, X>(events: Seq<UiEvent<S, X>>, k: int)
    requires
        0 <= k <= events.len(),
        scroll_sums_ok(events),
    ensures
        scroll_sums_ok(events.take(k)),
    decreases events.len(),
{
    if k < events.len() {
        lemma_scroll_sums_ok_prefix(events.drop_last(), k);
        assert(events.drop_last().take(k) =~= events.take(k));
    } else {
        assert(events.take(k) =~= events);
    }
}

proof fn lemma_take_last<T>(s: Seq<T>, i: int)
    requires
        0 <= i < s.len(),
    ensures
        s.take(i + 1).drop_last() == s.take(i),
        s.take(i + 1).last() == s[i],
{
    assert(s.take(i + 1).drop_last() =~= s.take(i));
}

/// Returns all of the text that was entered, or `None` if none was.
pub fn text_just_entered<S, X>(events: &[UiEvent<S, X>]) -> (r: Option<String>)
    ensures
        match r {
            Some(t) => t@ == text_in(events@) && t@.len() > 0,
            None => text_in(events@).len() == 0,
        },
{
    let mut all_text = String::new();
    let mut i: usize = 0;
    while i < events.len()
        invariant
            i <= events@.len(),
            all_text@ == text_in(events@.take(i as int)),
        decreases events@.len() - i,
    {
        proof {
            lemma_take_last(events@, i as int);
        }
        if let UiEvent::Raw(Input::Text(text)) = &events[i] {
            all_text.append(text.as_str());
        }
        i = i + 1;
    }
    assert(events@.take(events@.len() as int) =~= events@);
    if all_text.as_str().unicode_len() == 0 {
        None
    } else {
        Some(all_text)
    }
}

/// Returns all of the keys (by key code) that were released.
pub fn keys_just_released<S, X>(events: &[UiEvent<S, X>]) -> (r: Vec<u32>)
    ensures
        r@ == keys_released_in(events@),
{
    let mut keys: Vec<u32> = Vec::new();
    let mut i: usize = 0;
    while i < events.len()
        invariant
            i <= events@.len(),
            keys@ == keys_released_in(events@.take(i as int)),
        decreases events@.len() - i,
    {
        proof {
            lemma_take_last(events@, i as int);
        }
        if let UiEvent::Raw(Input::Release(Button::Keyboard(key))) = &events[i] {
            keys.push(*key);
        }
        i = i + 1;
    }
    assert(events@.take(events@.len() as int) =~= events@);
    keys
}

/// Returns all of the keys (by key code) that were pressed.
pub fn keys_just_pressed<S, X>(events: &[UiEvent<S, X>]) -> (r: Vec<u32>)
    ensures
        r@ == keys_pressed_in(events@),
{
    let mut keys: Vec<u32> = Vec::new();
    let mut i: usize = 0;
    while i < events.len()
        invariant
            i <= events@.len(),
            keys@ == keys_pressed_in(events@.take(i as int)),
        decreases events@.len() - i,
    {
        proof {
            lemma_take_last(events@, i as int);
        }
        if let UiEvent::Raw(Input::Press(Button::Keyboard(key))) = &events[i] {
            keys.push(*key);
        }
        i = i + 1;
    }
    assert(events@.take(events@.len() as int) =~= events@);
    keys
}

/// Returns all of the mouse buttons that were pressed.
pub fn mouse_buttons_just_pressed<S, X>(events: &[UiEvent<S, X>]) -> (r: Vec<MouseButton>)
    ensures
        r@ == buttons_pressed_in(events@),
{
    let mut buttons: Vec<MouseButton> = Vec::new();
    let mut i: usize = 0;
    while i < events.len()
        invariant
            i <= events@.len(),
            buttons@ == buttons_pressed_in(events@.take(i as int)),
        decreases events@.len() - i,
    {
        proof {
            lemma_take_last(events@, i as int);
        }
        if let UiEvent::Raw(Input::Press(Button::Mouse(b))) = &events[i] {
            buttons.push(*b);
        }
        i = i + 1;
    }
    assert(events@.take(events@.len() as int) =~= events@);
    buttons
}

/// Returns all of the mouse buttons that were released.
pub fn mouse_buttons_just_released<S, X>(events: &[UiEvent<S, X>]) -> (r: Vec<MouseButton>)
    ensures
        r@ == buttons_released_in(events@),
{
    let mut buttons: Vec<MouseButton> = Vec::new();
    let mut i: usize = 0;
    while i < events.len()
        invariant
            i <= events@.len(),
            buttons@ == buttons_released_in(events@.take(i as int)),
        decreases events@.len() - i,
    {
        proof {
            lemma_take_last(events@, i as int);
        }
        if let UiEvent::Raw(Input::Release(Button::Mouse(b))) = &events[i] {
            buttons.push(*b);
        }
        i = i + 1;
    }
    assert(events@.take(events@.len() as int) =~= events@);
    buttons
}

/// Returns a `Scroll` if any scrolling was done: if several scroll events occurred, their
/// amounts are added up, with the modifiers of the last one.
pub fn scroll<S: Copy + std::ops::Add<Output = S>, X>(events: &[UiEvent<S, X>]) -> (r: Option<Scroll<S>>)
    requires
        S::obeys_add_spec(),
        scroll_sums_ok(events@),
    ensures
        r == scroll_total(events@),
{
    let mut total: Option<Scroll<S>> = None;
    let mut i: usize = 0;
    while i < events.len()
        invariant
            i <= events@.len(),
            S::obeys_add_spec(),
            scroll_sums_ok(events@),
            total == scroll_total(events@.take(i as int)),
        decreases events@.len() - i,
    {
        proof {
            lemma_take_last(events@, i as int);
            lemma_scroll_sums_ok_prefix(events@, i + 1);
        }
        if let UiEvent::Scroll(s) = &events[i] {
            total = match total {
                Some(acc) => Some(Scroll { x: acc.x + s.x, y: acc.y + s.y, modifiers: s.modifiers }),
                None => Some(*s),
            };
        }
        i = i + 1;
    }
    assert(events@.take(events@.len() as int) =~= events@);
    total
}

/// Returns the most recent drag of the given mouse button, if any.
pub fn mouse_drag<S: Copy, X>(events: &[UiEvent<S, X>], button: MouseButton) -> (r: Option<MouseDrag<S>>)
    ensures
        r == last_drag(events@, button),
{
    let mut last: Option<MouseDrag<S>> = None;
    let mut i: usize = 0;
    while i < events.len()
        invariant
            i <= events@.len(),
            last == last_drag(events@.take(i as int), button),
        decreases events@.len() - i,
    {
        proof {
            lemma_take_last(events@, i as int);
        }
        if let UiEvent::MouseDrag(d) = &events[i] {
            if d.button == button {
                last = Some(*d);
            }
        }
        i = i + 1;
    }
    assert(events@.take(events@.len() as int) =~= events@);
    last
}

/// Returns the most recent drag of the left mouse button, if any.
pub fn mouse_left_drag<S: Copy, X>(events: &[UiEvent<S, X>]) -> (r: Option<MouseDrag<S>>)
    ensures
        r == last_drag(events@, MouseButton::Left),
{
    mouse_drag(events, MouseButton::Left)
}

/// Returns the first click of the given mouse button, if any.
pub fn mouse_click<S: Copy, X>(events: &[UiEvent<S, X>], button: MouseButton) -> (r: Option<MouseClick<S>>)
    ensures
        r == first_click(events@, button),
{
    let mut i: usize = 0;
    while i < events.len()
        invariant
            i <= events@.len(),
            first_click(events@.take(i as int), button) is None,
        decreases events@.len() - i,
    {
        proof {
            lemma_take_last(events@, i as int);
            lemma_first_click_extend(events@, button, i as int);
        }
        if let UiEvent::MouseClick(c) = &events[i] {
            if c.button == button {
                return Some(*c);
            }
        }
        i = i + 1;
    }
    assert(events@.take(events@.len() as int) =~= events@);
    None
}

/// The first click of a sequence is that of any longer sequence that starts with it.
proof fn lemma_first_click_extend<S, X>(events: Seq<UiEvent<S, X>>, button: MouseButton, i: int)
    requires
        0 <= i < events.len(),
    ensures
        first_click(events.take(i + 1), button) is Some ==> first_click(events, button)
            == first_click(events.take(i + 1), button),
    decreases events.len(),
{
    if i + 1 < events.len() {
        lemma_first_click_extend(events.drop_last(), button, i);
        assert(events.drop_last().take(i + 1) =~= events.take(i + 1));
    } else {
        assert(events.take(i + 1) =~= events);
    }
}

/// Returns the first click of the left mouse button, if any.
pub fn mouse_left_click<S: Copy, X>(events: &[UiEvent<S, X>]) -> (r: Option<MouseClick<S>>)
    ensures
        r == first_click(events@, MouseButton::Left),
{
    mouse_click(events, MouseButton::Left)
}

/// Returns the first click of the right mouse button, if any.
pub fn mouse_right_click<S: Copy, X>(events: &[UiEvent<S, X>]) -> (r: Option<MouseClick<S>>)
    ensures
        r == first_click(events@, MouseButton::Right),
{
    mouse_click(events, MouseButton::Right)
}

} // verus!
