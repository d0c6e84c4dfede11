//! Contains all the logic for filtering input events and making them relative to widgets.
//!
//! The core of this module is the `Widget::for_widget` method, which gives the input events
//! for a specific widget.
//!
//! All events are filtered in accordance with input capturing: a widget that does not capture
//! the mouse receives no mouse-related raw events, and a widget that captures the keyboard
//! receives all keyboard events. Mouse cursor positions are made relative to the middle of the
//! widget.

use vstd::prelude::*;
use crate::event::{Drag, Event, Ui, Widget as WidgetEvent};
use crate::events::button_map::ButtonMap;
use crate::events::input_state::InputState;
use crate::events::ui_event::{point_sub_ok, relative_point};
use crate::events::mouse_button::MouseButton;
use crate::events::ui_event::{Button, Input, Motion, MouseClick};
use crate::input::global::Global;
use crate::widget::Index;
use vstd::std_specs::ops::SubSpec;

verus! {

/// Whether the position that the widget filter moves in the stored event, if any, can be made
/// relative to `origin`: only mouse cursor moves are moved.
pub open spec fn stored_sub_ok<S: std::ops::Sub<Output = S>, X>(e: Event<S, X>, origin: [S; 2]) -> bool {
    match e {
        Event::Raw(Input::Move(Motion::MouseCursor(x, y))) => point_sub_ok([x, y], origin),
        _ => true,
    }
}

/// Whether `capturing` names the widget `idx`.
pub open spec fn names(capturing: Option<Index>, idx: Index) -> bool {
    capturing == Some(idx)
}

/// The raw input event that widget `idx`, whose middle is at `origin`, receives from `input`
/// while `keyboard` and `mouse` are the capturing widgets:
/// - mouse input (cursor and relative moves, scrolls, mouse buttons, the cursor entering or
///   leaving the window) only while the widget captures the mouse, with the cursor position
///   made relative to `origin`;
/// - keyboard input (keys and text) only while the widget captures the keyboard;
/// - resizes and focus changes always;
/// - nothing else.
pub open spec fn raw_delivery<S: std::ops::Sub<Output = S>, X>(
    idx: Index,
    origin: [S; 2],
    keyboard: Option<Index>,
    mouse: Option<Index>,
    input: Input<S, X>,
) -> Option<WidgetEvent<S, X>> {
    let on_mouse = names(mouse, idx);
    let on_keyboard = names(keyboard, idx);
    match input {
        Input::Move(Motion::MouseCursor(x, y)) => if on_mouse {
            Some(
                WidgetEvent::Raw(
                    Input::Move(
                        Motion::MouseCursor(x.sub_spec(origin[0]), y.sub_spec(origin[1])),
                    ),
                ),
            )
        } else {
            None
        },
        Input::Move(Motion::MouseRelative(_, _)) | Input::Move(Motion::MouseScroll(_, _))
        | Input::Press(Button::Mouse(_)) | Input::Release(Button::Mouse(_)) | Input::Cursor(
            _,
        ) => if on_mouse {
            Some(WidgetEvent::Raw(input))
        } else {
            None
        },
        Input::Text(_) | Input::Press(Button::Keyboard(_)) | Input::Release(
            Button::Keyboard(_),
        ) => if on_keyboard {
            Some(WidgetEvent::Raw(input))
        } else {
            None
        },
        Input::Resize(_, _) | Input::Focus(_) => Some(WidgetEvent::Raw(input)),
        _ => None,
    }
}

/// One step of the filter for widget `idx`: from the capturing widgets `(keyboard, mouse)` and
/// a stored event, the capturing widgets afterwards and the event the widget receives, if any.
/// Capture events move the capture (an uncapture clears it only if it names the capturing
/// widget) and reach the widget when they name it; clicks, drags and scrolls reach it when they
/// occurred over it.
pub open spec fn filter_step<S: std::ops::Sub<Output = S>, X>(
    idx: Index,
    origin: [S; 2],
    keyboard: Option<Index>,
    mouse: Option<Index>,
    event: Event<S, X>,
) -> (Option<Index>, Option<Index>, Option<WidgetEvent<S, X>>) {
    match event {
        Event::Raw(input) => (keyboard, mouse, raw_delivery(idx, origin, keyboard, mouse, input)),
        Event::Ui(ui) => match ui {
            Ui::WidgetCapturesMouse(i) => (
                keyboard,
                Some(i),
                if i == idx {
                    Some(WidgetEvent::CapturesMouse)
                } else {
                    None
                },
            ),
            Ui::WidgetUncapturesMouse(i) => (
                keyboard,
                if mouse == Some(i) {
                    None
                } else {
                    mouse
                },
                if i == idx {
                    Some(WidgetEvent::UncapturesMouse)
                } else {
                    None
                },
            ),
            Ui::WidgetCapturesKeyboard(i) => (
                Some(i),
                mouse,
                if i == idx {
                    Some(WidgetEvent::CapturesKeyboard)
                } else {
                    None
                },
            ),
            Ui::WidgetUncapturesKeyboard(i) => (
                if keyboard == Some(i) {
                    None
                } else {
                    keyboard
                },
                mouse,
                if i == idx {
                    Some(WidgetEvent::UncapturesKeyboard)
                } else {
                    None
                },
            ),
            Ui::Click(over, click) => (
                keyboard,
                mouse,
                if over == Some(idx) {
                    Some(WidgetEvent::Click(click))
                } else {
                    None
                },
            ),
            Ui::Drag(over, drag) => (
                keyboard,
                mouse,
                if over == Some(idx) {
                    Some(WidgetEvent::Drag(drag))
                } else {
                    None
                },
            ),
            Ui::Scroll(over, scroll) => (
                keyboard,
                mouse,
                if over == Some(idx) {
                    Some(WidgetEvent::Scroll(scroll))
                } else {
                    None
                },
            ),
            _ => (keyboard, mouse, None),
        },
    }
}

/// The events that widget `idx` receives from `events[i..]`, starting with the capturing
/// widgets `(keyboard, mouse)`.
pub open spec fn deliveries<S: std::ops::Sub<Output = S>, X>(
    idx: Index,
    origin: [S; 2],
    keyboard: Option<Index>,
    mouse: Option<Index>,
    events: Seq<Event<S, X>>,
    i: int,
) -> Seq<WidgetEvent<S, X>>
    decreases events.len() - i,
{
    if i < 0 || i >= events.len() {
        Seq::empty()
    } else {
        let (k, m, w) = filter_step(idx, origin, keyboard, mouse, events[i]);
        match w {
            Some(e) => seq![e] + deliveries(idx, origin, k, m, events, i + 1),
            None => deliveries(idx, origin, k, m, events, i + 1),
        }
    }
}

/// Whether the received event `a` is `b`, but for the coordinates of a mouse cursor move, which
/// come from subtracting positions.
pub open spec fn same_delivery<S, X>(a: WidgetEvent<S, X>, b: WidgetEvent<S, X>) -> bool {
    match (a, b) {
        (
            WidgetEvent::Raw(Input::Move(Motion::MouseCursor(_, _))),
            WidgetEvent::Raw(Input::Move(Motion::MouseCursor(_, _))),
        ) => true,
        _ => a == b,
    }
}

/// The clicks among the received events, in order.
pub open spec fn clicks_in<S, X>(ws: Seq<WidgetEvent<S, X>>) -> Seq<MouseClick<S>>
    decreases ws.len(),
{
    if ws.len() == 0 {
        Seq::empty()
    } else {
        match ws[0] {
            WidgetEvent::Click(c) => seq![c] + clicks_in(ws.drop_first()),
            _ => clicks_in(ws.drop_first()),
        }
    }
}

/// The drags among the received events, in order.
pub open spec fn drags_in<S, X>(ws: Seq<WidgetEvent<S, X>>) -> Seq<Drag<S>>
    decreases ws.len(),
{
    if ws.len() == 0 {
        Seq::empty()
    } else {
        match ws[0] {
            WidgetEvent::Drag(d) => seq![d] + drags_in(ws.drop_first()),
            _ => drags_in(ws.drop_first()),
        }
    }
}

/// The entered texts among the received events, in order.
pub open spec fn texts_in<S, X>(ws: Seq<WidgetEvent<S, X>>) -> Seq<String>
    decreases ws.len(),
{
    if ws.len() == 0 {
        Seq::empty()
    } else {
        match ws[0] {
            WidgetEvent::Raw(Input::Text(t)) => seq![t] + texts_in(ws.drop_first()),
            _ => texts_in(ws.drop_first()),
        }
    }
}

/// The clicks of the given button, in order.
pub open spec fn clicks_of<S>(cs: Seq<MouseClick<S>>, button: MouseButton) -> Seq<MouseClick<S>>
    decreases cs.len(),
{
    if cs.len() == 0 {
        Seq::empty()
    } else if cs[0].button == button {
        seq![cs[0]] + clicks_of(cs.drop_first(), button)
    } else {
        clicks_of(cs.drop_first(), button)
    }
}

/// The drags of the given button, in order.
pub open spec fn drags_of<S>(ds: Seq<Drag<S>>, button: MouseButton) -> Seq<Drag<S>>
    decreases ds.len(),
{
    if ds.len() == 0 {
        Seq::empty()
    } else if ds[0].button == button {
        seq![ds[0]] + drags_of(ds.drop_first(), button)
    } else {
        drags_of(ds.drop_first(), button)
    }
}

/// Provides only events and input state that are relevant to a specific widget.
pub struct Widget<'a, S, X> {
    global: &'a Global<InputState<S>, Event<S, X>>,
    widget_xy: [S; 2],
    idx: Index,
}

/// A view of the state of the mouse that is specific to a single widget.
pub struct Mouse<'a, S> {
    widget_xy: [S; 2],
    mouse_abs_xy: [S; 2],
    /// The state of each mouse button.
    pub buttons: &'a ButtonMap<[S; 2]>,
}

/// An iterator yielding all events that are relevant to a specific widget.
///
/// All events provided by this iterator are filtered in accordance with input capturing. For
/// example: if the widget does not capture the mouse, it *will not* receive any mouse-related
/// events. If the widget captures the keyboard it *will* receive all keyboard events.
///
/// All mouse cursor positions are relative to the middle of the widget.
pub struct Events<'a, S, X> {
    global_events: &'a [Event<S, X>],
    position: usize,
    capturing_keyboard: Option<Index>,
    capturing_mouse: Option<Index>,
    widget_xy: [S; 2],
    idx: Index,
}

/// An iterator yielding all mouse clicks received by a widget.
pub struct Clicks<'a, S, X> {
    events: Events<'a, S, X>,
}

/// An iterator yielding the mouse clicks of one button received by a widget.
pub struct ButtonClicks<'a, S, X> {
    clicks: Clicks<'a, S, X>,
    button: MouseButton,
}

/// An iterator yielding all drags received by a widget.
pub struct Drags<'a, S, X> {
    events: Events<'a, S, X>,
}

/// An iterator yielding the drags of one button received by a widget.
pub struct ButtonDrags<'a, S, X> {
    drags: Drags<'a, S, X>,
    button: MouseButton,
}

/// An iterator yielding all text entered while the widget captures the keyboard.
pub struct Texts<'a, S, X> {
    events: Events<'a, S, X>,
}

fn is_named(capturing: Option<Index>, idx: Index) -> (r: bool)
    ensures
        r == names(capturing, idx),
{
    match capturing {
        Some(i) => i == idx,
        None => false,
    }
}

impl<'a, S: Copy + std::ops::Sub<Output = S>, X: Copy> Events<'a, S, X> {
    /// The events that remain to be received, as the filter will give them.
    pub closed spec fn remaining(&self) -> Seq<WidgetEvent<S, X>> {
        deliveries(
            self.idx,
            self.widget_xy,
            self.capturing_keyboard,
            self.capturing_mouse,
            self.global_events@,
            self.position as int,
        )
    }

    /// The widget whose events these are.
    pub closed spec fn widget(&self) -> Index {
        self.idx
    }

    /// Whether the positions that the remaining stored events will have moved can be made
    /// relative to the widget.
    pub closed spec fn positions_ok(&self) -> bool {
        forall|i: int|
            self.position <= i < self.global_events@.len() ==> stored_sub_ok(
                #[trigger] self.global_events@[i],
                self.widget_xy,
            )
    }

    /// Yields the next event that the widget receives, or `None` when no event remains.
    pub fn next(&mut self) -> (r: Option<WidgetEvent<S, X>>)
        requires
            old(self).positions_ok(),
        ensures
            final(self).widget() == old(self).widget(),
            final(self).positions_ok(),
            match r {
                None => old(self).remaining().len() == 0 && final(self).remaining().len() == 0,
                Some(w) => {
                    &&& old(self).remaining().len() > 0
                    &&& same_delivery(w, old(self).remaining()[0])
                    &&& S::obeys_sub_spec() ==> w == old(self).remaining()[0]
                    &&& final(self).remaining() == old(self).remaining().drop_first()
                },
            },
    {
        let ghost initial = self.remaining();
        while self.position < self.global_events.len()
            invariant
                self.remaining() == initial,
                initial == old(self).remaining(),
                self.idx == old(self).idx,
                self.positions_ok(),
            decreases self.global_events@.len() - self.position,
        {
            let i = self.position;
            let ghost k0 = self.capturing_keyboard;
            let ghost m0 = self.capturing_mouse;
            let ghost step = filter_step(self.idx, self.widget_xy, k0, m0, self.global_events@[i as int]);
            let w = self.step(i);
            self.position = i + 1;
            assert(self.capturing_keyboard == step.0 && self.capturing_mouse == step.1);
            match w {
                Some(e) => {
                    assert(initial == seq![step.2->0] + self.remaining());
                    assert(initial.drop_first() =~= self.remaining());
                    return Some(e);
                },
                None => {},
            }
        }
        None
    }

    /// Filters the event at `i`: updates the capturing widgets and returns what the widget
    /// receives (see `filter_step`).
    fn step(&mut self, i: usize) -> (r: Option<WidgetEvent<S, X>>)
        requires
            i < old(self).global_events@.len(),
            stored_sub_ok(old(self).global_events@[i as int], old(self).widget_xy),
        ensures
            ({
                let (k, m, w) = filter_step(
                    old(self).idx,
                    old(self).widget_xy,
                    old(self).capturing_keyboard,
                    old(self).capturing_mouse,
                    old(self).global_events@[i as int],
                );
                &&& final(self).capturing_keyboard == k
                &&& final(self).capturing_mouse == m
                &&& r is Some == w is Some
                &&& r is Some ==> same_delivery(r->0, w->0)
                &&& S::obeys_sub_spec() ==> r == w
            }),
            final(self).global_events == old(self).global_events,
            final(self).position == old(self).position,
            final(self).widget_xy == old(self).widget_xy,
            final(self).idx == old(self).idx,
    {
        let is_capturing_mouse = is_named(self.capturing_mouse, self.idx);
        let is_capturing_keyboard = is_named(self.capturing_keyboard, self.idx);
        let idx = self.idx;
        match &self.global_events[i] {
            Event::Raw(input) => match input {
                Input::Move(Motion::MouseCursor(x, y)) => {
                    if is_capturing_mouse {
                        let rel_x = *x - self.widget_xy[0];
                        let rel_y = *y - self.widget_xy[1];
                        Some(WidgetEvent::Raw(Input::Move(Motion::MouseCursor(rel_x, rel_y))))
                    } else {
                        None
                    }
                },
                Input::Move(Motion::MouseRelative(x, y)) => {
                    if is_capturing_mouse {
                        Some(WidgetEvent::Raw(Input::Move(Motion::MouseRelative(*x, *y))))
                    } else {
                        None
                    }
                },
                Input::Move(Motion::MouseScroll(x, y)) => {
                    if is_capturing_mouse {
                        Some(WidgetEvent::Raw(Input::Move(Motion::MouseScroll(*x, *y))))
                    } else {
                        None
                    }
                },
                Input::Press(Button::Mouse(b)) => {
                    if is_capturing_mouse {
                        Some(WidgetEvent::Raw(Input::Press(Button::Mouse(*b))))
                    } else {
                        None
                    }
                },
                Input::Release(Button::Mouse(b)) => {
                    if is_capturing_mouse {
                        Some(WidgetEvent::Raw(Input::Release(Button::Mouse(*b))))
                    } else {
                        None
                    }
                },
                Input::Cursor(c) => {
                    if is_capturing_mouse {
                        Some(WidgetEvent::Raw(Input::Cursor(*c)))
                    } else {
                        None
                    }
                },
                Input::Text(t) => {
                    if is_capturing_keyboard {
                        Some(WidgetEvent::Raw(Input::Text(t.clone())))
                    } else {
                        None
                    }
                },
                Input::Press(Button::Keyboard(k)) => {
                    if is_capturing_keyboard {
                        Some(WidgetEvent::Raw(Input::Press(Button::Keyboard(*k))))
                    } else {
                        None
                    }
                },
                Input::Release(Button::Keyboard(k)) => {
                    if is_capturing_keyboard {
                        Some(WidgetEvent::Raw(Input::Release(Button::Keyboard(*k))))
                    } else {
                        None
                    }
                },
                Input::Resize(w, h) => Some(WidgetEvent::Raw(Input::Resize(*w, *h))),
                Input::Focus(f) => Some(WidgetEvent::Raw(Input::Focus(*f))),
                _ => None,
            },
            Event::Ui(ui) => match ui {
                Ui::WidgetCapturesMouse(i) => {
                    self.capturing_mouse = Some(*i);
                    if *i == idx {
                        Some(WidgetEvent::CapturesMouse)
                    } else {
                        None
                    }
                },
                Ui::WidgetUncapturesMouse(i) => {
                    if is_named(self.capturing_mouse, *i) {
                        self.capturing_mouse = None;
                    }
                    if *i == idx {
                        Some(WidgetEvent::UncapturesMouse)
                    } else {
                        None
                    }
                },
                Ui::WidgetCapturesKeyboard(i) => {
                    self.capturing_keyboard = Some(*i);
                    if *i == idx {
                        Some(WidgetEvent::CapturesKeyboard)
                    } else {
                        None
                    }
                },
                Ui::WidgetUncapturesKeyboard(i) => {
                    if is_named(self.capturing_keyboard, *i) {
                        self.capturing_keyboard = None;
                    }
                    if *i == idx {
                        Some(WidgetEvent::UncapturesKeyboard)
                    } else {
                        None
                    }
                },
                Ui::Click(over, click) => {
                    if is_named(*over, idx) {
                        Some(WidgetEvent::Click(*click))
                    } else {
                        None
                    }
                },
                Ui::Drag(over, drag) => {
                    if is_named(*over, idx) {
                        Some(WidgetEvent::Drag(*drag))
                    } else {
                        None
                    }
                },
                Ui::Scroll(over, scroll) => {
                    if is_named(*over, idx) {
                        Some(WidgetEvent::Scroll(*scroll))
                    } else {
                        None
                    }
                },
                _ => None,
            },
        }
    }
}


impl<'a, S: Copy + std::ops::Sub<Output = S>, X: Copy> Widget<'a, S, X> {
    /// The widget whose input this is.
    pub closed spec fn widget(&self) -> Index {
        self.idx
    }

    /// The middle of the widget, to which mouse cursor positions are made relative.
    pub closed spec fn origin(&self) -> [S; 2] {
        self.widget_xy
    }

    /// The global input from which the widget's input is taken.
    pub closed spec fn source(&self) -> Global<InputState<S>, Event<S, X>> {
        *self.global
    }

    /// Returns a `Widget` with events specifically for the widget `idx`, whose middle is at
    /// `widget_xy`.
    pub fn for_widget(
        idx: Index,
        widget_xy: [S; 2],
        global: &'a Global<InputState<S>, Event<S, X>>,
    ) -> (r: Self)
        ensures
            r.widget() == idx,
            r.origin() == widget_xy,
            r.source() == *global,
    {
        Widget { global, widget_xy, idx }
    }

    /// If the widget is currently capturing the mouse, returns the state of the mouse; `None`
    /// if the widget is not capturing the mouse.
    pub fn mouse(&self) -> (r: Option<Mouse<'a, S>>)
        ensures
            r is Some <==> self.source().current_state().widget_capturing_mouse == Some(self.widget()),
            r matches Some(m) ==> {
                &&& m.abs() == self.source().current_state().mouse_position
                &&& m.origin() == self.origin()
                &&& m.button_states() == self.source().current_state().mouse_buttons
            },
    {
        let global: &'a Global<InputState<S>, Event<S, X>> = self.global;
        let current: &'a InputState<S> = global.current_state_ref();
        if current.widget_capturing_mouse == Some(self.idx) {
            return Some(
                Mouse {
                    buttons: &current.mouse_buttons,
                    mouse_abs_xy: current.mouse_position,
                    widget_xy: self.widget_xy,
                },
            );
        }
        None
    }

    /// Whether every position that the widget's events move can be made relative to the widget.
    pub open spec fn positions_ok(&self) -> bool {
        forall|i: int|
            0 <= i < self.source().pending().len() ==> stored_sub_ok(
                #[trigger] self.source().pending()[i],
                self.origin(),
            )
    }

    /// Produces an iterator yielding all events that are relevant to the widget, starting from
    /// the capturing widgets as they were at the start of the cycle.
    pub fn events(&self) -> (r: Events<'a, S, X>)
        ensures
            r.widget() == self.widget(),
            r.positions_ok() == self.positions_ok(),
            r.remaining() == deliveries(
                self.widget(),
                self.origin(),
                self.source().start_state().widget_capturing_keyboard,
                self.source().start_state().widget_capturing_mouse,
                self.source().pending(),
                0,
            ),
    {
        let global: &'a Global<InputState<S>, Event<S, X>> = self.global;
        let start = global.start_state_ref();
        let r = Events {
            global_events: global.events(),
            position: 0,
            capturing_keyboard: start.widget_capturing_keyboard,
            capturing_mouse: start.widget_capturing_mouse,
            widget_xy: self.widget_xy,
            idx: self.idx,
        };
        assert(r.global_events@ == self.source().pending());
        assert(r.positions_ok() == self.positions_ok()) by {
            if r.positions_ok() {
                assert forall|i: int| 0 <= i < self.source().pending().len() implies stored_sub_ok(
                    #[trigger] self.source().pending()[i],
                    self.origin(),
                ) by {
                    assert(stored_sub_ok(r.global_events@[i], r.widget_xy));
                }
            }
            if self.positions_ok() {
                assert forall|i: int| r.position <= i < r.global_events@.len() implies stored_sub_ok(
                    #[trigger] r.global_events@[i],
                    r.widget_xy,
                ) by {
                    assert(stored_sub_ok(self.source().pending()[i], self.origin()));
                }
            }
        }
        r
    }

    /// All mouse clicks that the widget receives.
    pub fn clicks(&self) -> (r: Clicks<'a, S, X>)
        ensures
            r.positions_ok() == self.positions_ok(),
            r.remaining() == clicks_in(self.events_spec()),
    {
        Clicks { events: self.events() }
    }

    /// All drags that the widget receives.
    pub fn drags(&self) -> (r: Drags<'a, S, X>)
        ensures
            r.positions_ok() == self.positions_ok(),
            r.remaining() == drags_in(self.events_spec()),
    {
        Drags { events: self.events() }
    }

    /// All text entered while the widget captures the keyboard.
    pub fn text(&self) -> (r: Texts<'a, S, X>)
        ensures
            r.positions_ok() == self.positions_ok(),
            r.remaining() == texts_in(self.events_spec()),
    {
        Texts { events: self.events() }
    }

    /// The events that the widget receives in this cycle.
    pub open spec fn events_spec(&self) -> Seq<WidgetEvent<S, X>> {
        deliveries(
            self.widget(),
            self.origin(),
            self.source().start_state().widget_capturing_keyboard,
            self.source().start_state().widget_capturing_mouse,
            self.source().pending(),
            0,
        )
    }
}

impl<'a, S: Copy + std::ops::Sub<Output = S>, X: Copy> Clicks<'a, S, X> {
    /// Whether the positions that the remaining events will have moved can be made relative to
    /// the widget.
    pub closed spec fn positions_ok(&self) -> bool {
        self.events.positions_ok()
    }

    /// The clicks that remain to be yielded.
    pub closed spec fn remaining(&self) -> Seq<MouseClick<S>> {
        clicks_in(self.events.remaining())
    }

    /// Yields the next click.
    pub fn next(&mut self) -> (r: Option<MouseClick<S>>)
        requires
            old(self).positions_ok(),
        ensures
            final(self).positions_ok(),
            match r {
                None => old(self).remaining().len() == 0,
                Some(c) => {
                    &&& old(self).remaining().len() > 0
                    &&& c == old(self).remaining()[0]
                    &&& final(self).remaining() == old(self).remaining().drop_first()
                },
            },
    {
        let ghost initial = self.remaining();
        loop
            invariant
                self.remaining() == initial,
                initial == old(self).remaining(),
                self.positions_ok(),
            decreases self.events.remaining().len(),
        {
            let ghost rem = self.events.remaining();
            match self.events.next() {
                None => {
                    return None;
                },
                Some(WidgetEvent::Click(click)) => {
                    assert(initial == seq![click] + clicks_in(rem.drop_first()));
                    return Some(click);
                },
                Some(_) => {
                    assert(initial == clicks_in(rem.drop_first()));
                },
            }
        }
    }

    /// Yield only the clicks of the given button.
    pub fn button(self, button: MouseButton) -> (r: ButtonClicks<'a, S, X>)
        ensures
            r.positions_ok() == self.positions_ok(),
            r.remaining() == clicks_of(self.remaining(), button),
    {
        ButtonClicks { clicks: self, button }
    }

    /// Yield only left mouse button clicks.
    pub fn left(self) -> (r: ButtonClicks<'a, S, X>)
        ensures
            r.positions_ok() == self.positions_ok(),
            r.remaining() == clicks_of(self.remaining(), MouseButton::Left),
    {
        self.button(MouseButton::Left)
    }

    /// Yield only middle mouse button clicks.
    pub fn middle(self) -> (r: ButtonClicks<'a, S, X>)
        ensures
            r.positions_ok() == self.positions_ok(),
            r.remaining() == clicks_of(self.remaining(), MouseButton::Middle),
    {
        self.button(MouseButton::Middle)
    }

    /// Yield only right mouse button clicks.
    pub fn right(self) -> (r: ButtonClicks<'a, S, X>)
        ensures
            r.positions_ok() == self.positions_ok(),
            r.remaining() == clicks_of(self.remaining(), MouseButton::Right),
    {
        self.button(MouseButton::Right)
    }
}

impl<'a, S: Copy + std::ops::Sub<Output = S>, X: Copy> ButtonClicks<'a, S, X> {
    /// Whether the positions that the remaining events will have moved can be made relative to
    /// the widget.
    pub closed spec fn positions_ok(&self) -> bool {
        self.clicks.positions_ok()
    }

    /// The clicks of the button that remain to be yielded.
    pub closed spec fn remaining(&self) -> Seq<MouseClick<S>> {
        clicks_of(self.clicks.remaining(), self.button)
    }

    /// Yields the next click of the button.
    pub fn next(&mut self) -> (r: Option<MouseClick<S>>)
        requires
            old(self).positions_ok(),
        ensures
            final(self).positions_ok(),
            match r {
                None => old(self).remaining().len() == 0,
                Some(c) => {
                    &&& old(self).remaining().len() > 0
                    &&& c == old(self).remaining()[0]
                    &&& final(self).remaining() == old(self).remaining().drop_first()
                },
            },
    {
        let ghost initial = self.remaining();
        loop
            invariant
                self.remaining() == initial,
                initial == old(self).remaining(),
                self.button == old(self).button,
                self.positions_ok(),
            decreases self.clicks.remaining().len(),
        {
            let ghost rem = self.clicks.remaining();
            match self.clicks.next() {
                None => {
                    return None;
                },
                Some(click) => {
                    if click.button == self.button {
                        assert(initial == seq![click] + clicks_of(rem.drop_first(), self.button));
                        return Some(click);
                    } else {
                        assert(initial == clicks_of(rem.drop_first(), self.button));
                    }
                },
            }
        }
    }
}

impl<'a, S: Copy + std::ops::Sub<Output = S>, X: Copy> Drags<'a, S, X> {
    /// Whether the positions that the remaining events will have moved can be made relative to
    /// the widget.
    pub closed spec fn positions_ok(&self) -> bool {
        self.events.positions_ok()
    }

    /// The drags that remain to be yielded.
    pub closed spec fn remaining(&self) -> Seq<Drag<S>> {
        drags_in(self.events.remaining())
    }

    /// Yields the next drag.
    pub fn next(&mut self) -> (r: Option<Drag<S>>)
        requires
            old(self).positions_ok(),
        ensures
            final(self).positions_ok(),
            match r {
                None => old(self).remaining().len() == 0,
                Some(d) => {
                    &&& old(self).remaining().len() > 0
                    &&& d == old(self).remaining()[0]
                    &&& final(self).remaining() == old(self).remaining().drop_first()
                },
            },
    {
        let ghost initial = self.remaining();
        loop
            invariant
                self.remaining() == initial,
                initial == old(self).remaining(),
                self.positions_ok(),
            decreases self.events.remaining().len(),
        {
            let ghost rem = self.events.remaining();
            match self.events.next() {
                None => {
                    return None;
                },
                Some(WidgetEvent::Drag(drag)) => {
                    assert(initial == seq![drag] + drags_in(rem.drop_first()));
                    return Some(drag);
                },
                Some(_) => {
                    assert(initial == drags_in(rem.drop_first()));
                },
            }
        }
    }

    /// Yield only the drags of the given button.
    pub fn button(self, button: MouseButton) -> (r: ButtonDrags<'a, S, X>)
        ensures
            r.positions_ok() == self.positions_ok(),
            r.remaining() == drags_of(self.remaining(), button),
    {
        ButtonDrags { drags: self, button }
    }

    /// Yield only left mouse button drags.
    pub fn left(self) -> (r: ButtonDrags<'a, S, X>)
        ensures
            r.positions_ok() == self.positions_ok(),
            r.remaining() == drags_of(self.remaining(), MouseButton::Left),
    {
        self.button(MouseButton::Left)
    }

    /// Yield only middle mouse button drags.
    pub fn middle(self) -> (r: ButtonDrags<'a, S, X>)
        ensures
            r.positions_ok() == self.positions_ok(),
            r.remaining() == drags_of(self.remaining(), MouseButton::Middle),
    {
        self.button(MouseButton::Middle)
    }

    /// Yield only right mouse button drags.
    pub fn right(self) -> (r: ButtonDrags<'a, S, X>)
        ensures
            r.positions_ok() == self.positions_ok(),
            r.remaining() == drags_of(self.remaining(), MouseButton::Right),
    {
        self.button(MouseButton::Right)
    }
}

impl<'a, S: Copy + std::ops::Sub<Output = S>, X: Copy> ButtonDrags<'a, S, X> {
    /// Whether the positions that the remaining events will have moved can be made relative to
    /// the widget.
    pub closed spec fn positions_ok(&self) -> bool {
        self.drags.positions_ok()
    }

    /// The drags of the button that remain to be yielded.
    pub closed spec fn remaining(&self) -> Seq<Drag<S>> {
        drags_of(self.drags.remaining(), self.button)
    }

    /// Yields the next drag of the button.
    pub fn next(&mut self) -> (r: Option<Drag<S>>)
        requires
            old(self).positions_ok(),
        ensures
            final(self).positions_ok(),
            match r {
                None => old(self).remaining().len() == 0,
                Some(d) => {
                    &&& old(self).remaining().len() > 0
                    &&& d == old(self).remaining()[0]
                    &&& final(self).remaining() == old(self).remaining().drop_first()
                },
            },
    {
        let ghost initial = self.remaining();
        loop
            invariant
                self.remaining() == initial,
                initial == old(self).remaining(),
                self.button == old(self).button,
                self.positions_ok(),
            decreases self.drags.remaining().len(),
        {
            let ghost rem = self.drags.remaining();
            match self.drags.next() {
                None => {
                    return None;
                },
                Some(drag) => {
                    if drag.button == self.button {
                        assert(initial == seq![drag] + drags_of(rem.drop_first(), self.button));
                        return Some(drag);
                    } else {
                        assert(initial == drags_of(rem.drop_first(), self.button));
                    }
                },
            }
        }
    }
}

impl<'a, S: Copy + std::ops::Sub<Output = S>, X: Copy> Texts<'a, S, X> {
    /// Whether the positions that the remaining events will have moved can be made relative to
    /// the widget.
    pub closed spec fn positions_ok(&self) -> bool {
        self.events.positions_ok()
    }

    /// The texts that remain to be yielded.
    pub closed spec fn remaining(&self) -> Seq<String> {
        texts_in(self.events.remaining())
    }

    /// Yields the next entered text.
    pub fn next(&mut self) -> (r: Option<String>)
        requires
            old(self).positions_ok(),
        ensures
            final(self).positions_ok(),
            match r {
                None => old(self).remaining().len() == 0,
                Some(t) => {
                    &&& old(self).remaining().len() > 0
                    &&& t == old(self).remaining()[0]
                    &&& final(self).remaining() == old(self).remaining().drop_first()
                },
            },
    {
        let ghost initial = self.remaining();
        loop
            invariant
                self.remaining() == initial,
                initial == old(self).remaining(),
                self.positions_ok(),
            decreases self.events.remaining().len(),
        {
            let ghost rem = self.events.remaining();
            match self.events.next() {
                None => {
                    return None;
                },
                Some(WidgetEvent::Raw(Input::Text(text))) => {
                    assert(initial == seq![text] + texts_in(rem.drop_first()));
                    return Some(text);
                },
                Some(_) => {
                    assert(initial == texts_in(rem.drop_first()));
                },
            }
        }
    }
}

/// A widget that does not capture the mouse receives no mouse-related raw input.
pub proof fn law_no_mouse_input_without_capture<S: std::ops::Sub<Output = S>, X>(
    idx: Index,
    origin: [S; 2],
    keyboard: Option<Index>,
    mouse: Option<Index>,
    input: Input<S, X>,
)
    requires
        mouse != Some(idx),
        match input {
            Input::Move(Motion::MouseCursor(_, _)) | Input::Move(Motion::MouseRelative(_, _))
            | Input::Move(Motion::MouseScroll(_, _)) | Input::Press(Button::Mouse(_))
            | Input::Release(Button::Mouse(_)) | Input::Cursor(_) => true,
            _ => false,
        },
    ensures
        filter_step(idx, origin, keyboard, mouse, Event::Raw(input)).2 is None,
{
}

/// A widget that captures the keyboard receives every key press, key release and entered text,
/// as it is.
pub proof fn law_keyboard_input_while_capturing<S: std::ops::Sub<Output = S>, X>(
    idx: Index,
    origin: [S; 2],
    keyboard: Option<Index>,
    mouse: Option<Index>,
    input: Input<S, X>,
)
    requires
        keyboard == Some(idx),
        match input {
            Input::Text(_) | Input::Press(Button::Keyboard(_)) | Input::Release(
                Button::Keyboard(_),
            ) => true,
            _ => false,
        },
    ensures
        filter_step(idx, origin, keyboard, mouse, Event::Raw(input)).2 == Some(
            WidgetEvent::<S, X>::Raw(input),
        ),
{
}

/// Raw input never moves the capture: only capture and uncapture events do.
pub proof fn law_raw_input_keeps_capture<S: std::ops::Sub<Output = S>, X>(
    idx: Index,
    origin: [S; 2],
    keyboard: Option<Index>,
    mouse: Option<Index>,
    input: Input<S, X>,
)
    ensures
        filter_step(idx, origin, keyboard, mouse, Event::Raw(input)).0 == keyboard,
        filter_step(idx, origin, keyboard, mouse, Event::Raw(input)).1 == mouse,
{
}

impl<'a, S: Copy + std::ops::Sub<Output = S>> Mouse<'a, S> {
    /// The absolute position of the mouse within the window.
    pub closed spec fn abs(&self) -> [S; 2] {
        self.mouse_abs_xy
    }

    /// The middle of the widget.
    pub closed spec fn origin(&self) -> [S; 2] {
        self.widget_xy
    }

    /// The state of each mouse button.
    pub closed spec fn button_states(&self) -> ButtonMap<[S; 2]> {
        *self.buttons
    }

    /// The absolute position of the mouse within the window.
    pub fn abs_xy(&self) -> (r: [S; 2])
        ensures
            r == self.abs(),
    {
        self.mouse_abs_xy
    }

    /// The position of the mouse relative to the middle of the widget.
    pub fn rel_xy(&self) -> (r: [S; 2])
        requires
            point_sub_ok(self.abs(), self.origin()),
        ensures
            S::obeys_sub_spec() ==> r == relative_point(self.abs(), self.origin()),
    {
        crate::utils::vec2_sub(self.mouse_abs_xy, self.widget_xy)
    }

    /// Whether the mouse is currently over the widget, as `is_over` answers for the absolute
    /// position of the mouse.
    pub fn is_over<F: Fn([S; 2]) -> bool>(&self, is_over: F) -> (r: bool)
        requires
            is_over.requires((self.abs(),)),
        ensures
            call_ensures(is_over, (self.abs(),), r),
    {
        is_over(self.mouse_abs_xy)
    }
}

} // verus!
