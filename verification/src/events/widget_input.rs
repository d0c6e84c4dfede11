//! Filtering input events for a single widget and making them relative to it.
//!
//! `WidgetInput::for_widget` gives a widget the events of the `GlobalInput` that pertain to it,
//! with their positions relative to the widget's own origin. Whether a point lies over the
//! widget's area is a question of floating point geometry, so the caller answers it with an
//! `is_over` test in window coordinates.

use vstd::prelude::*;
use crate::events::global_input::GlobalInput;
use crate::events::input_state::{InputState, InputView, relative_view, update_view, view_sub_ok};
use crate::events::ui_event::{UiEvent, event_sub_ok, is_keyboard_event_spec, is_mouse_event_spec, relative_event};
use crate::widget::Index;
use vstd::std_specs::ops::SubSpec;

verus! {

/// Holds the events meant for one widget, relative to its origin, and the input state relative
/// to it. Only the events that pertain to the widget are held.
pub struct WidgetInput<S, X> {
    events: Vec<UiEvent<S, X>>,
    current_state: InputState<S>,
}

/// The input state after each of `events` in turn, starting from `v`.
pub open spec fn state_after<S, X>(v: InputView<S>, events: Seq<UiEvent<S, X>>) -> InputView<S>
    decreases events.len(),
{
    if events.len() == 0 {
        v
    } else {
        update_view(state_after(v, events.drop_last()), events.last())
    }
}

/// Whether the widget asks if `event` is over its area, in input state `v` (the state after the
/// event): only for a mouse event while no widget captures the mouse, and not for an event that
/// the widget already gets as the keyboard's capturer.
pub open spec fn asks_over<S, X>(widget: Index, event: UiEvent<S, X>, v: InputView<S>) -> bool {
    &&& is_mouse_event_spec(event)
    &&& !(is_keyboard_event_spec(event) && v.capturing_keyboard == Some(widget))
    &&& v.capturing_mouse is None
}

/// Whether `over` is a possible answer of `is_over` to whether `event` lies over the widget, in
/// input state `v`: a click by where it happened; a drag by its start, or else its end; any
/// other event by the mouse position.
pub open spec fn over_decided<S, X, F: Fn([S; 2]) -> bool>(
    is_over: F,
    event: UiEvent<S, X>,
    v: InputView<S>,
    over: bool,
) -> bool {
    match event {
        UiEvent::MouseClick(c) => call_ensures(is_over, (c.location,), over),
        UiEvent::MouseDrag(d) => (call_ensures(is_over, (d.start,), true) && over) || (call_ensures(
            is_over,
            (d.start,),
            false,
        ) && call_ensures(is_over, (d.end,), over)),
        _ => call_ensures(is_over, (v.position,), over),
    }
}

/// Whether the widget gets `event`, in input state `v` (the state after the event), where
/// `over` says whether the event lies over the widget: a keyboard event while it captures the
/// keyboard; a mouse event while it captures the mouse, or while no widget does and the event
/// is over it; and any event that is neither.
pub open spec fn provided<S, X>(widget: Index, event: UiEvent<S, X>, v: InputView<S>, over: bool) -> bool {
    ||| is_keyboard_event_spec(event) && v.capturing_keyboard == Some(widget)
    ||| is_mouse_event_spec(event) && (v.capturing_mouse == Some(widget) || (v.capturing_mouse is None
        && over))
    ||| !is_keyboard_event_spec(event) && !is_mouse_event_spec(event)
}

/// Whether `overs[i]` is a possible answer of `is_over` for the `i`th of `events`, where the
/// widget asks one.
pub open spec fn over_decided_at<S, X, F: Fn([S; 2]) -> bool>(
    is_over: F,
    widget: Index,
    start: InputView<S>,
    events: Seq<UiEvent<S, X>>,
    overs: Seq<bool>,
    i: int,
) -> bool {
    let v = state_after(start, events.take(i + 1));
    asks_over(widget, events[i], v) ==> over_decided(is_over, events[i], v, overs[i])
}

/// The events that the widget gets of `events`, from input state `start` on, each made relative
/// to `origin`, where `overs` answers for each event whether it lies over the widget.
pub open spec fn widget_events<S: std::ops::Sub<Output = S>, X>(
    widget: Index,
    origin: [S; 2],
    start: InputView<S>,
    events: Seq<UiEvent<S, X>>,
    overs: Seq<bool>,
) -> Seq<UiEvent<S, X>>
    decreases events.len(),
{
    if events.len() == 0 {
        Seq::empty()
    } else {
        let n = events.len() - 1;
        let prev = widget_events(widget, origin, start, events.drop_last(), overs.take(n));
        if provided(widget, events[n], state_after(start, events), overs[n]) {
            prev.push(relative_event(events[n], origin))
        } else {
            prev
        }
    }
}

/// Whether the widget gets the event, where the state after it is `current_state`; `is_over`
/// is asked only where `asks_over` holds, and `over` is its answer, if asked.
fn should_provide_event<S: Copy + std::ops::Sub<Output = S>, X: Copy, F: Fn([S; 2]) -> bool>(
    widget: Index,
    is_over: &F,
    event: &UiEvent<S, X>,
    current_state: &InputState<S>,
) -> (r: (bool, Ghost<bool>))
    requires
        forall|p: [S; 2]| #[trigger] is_over.requires((p,)),
    ensures
        asks_over(widget, *event, current_state@) ==> over_decided(*is_over, *event, current_state@, r.1@),
        r.0 == provided(widget, *event, current_state@, r.1@),
{
    let is_keyboard = event.is_keyboard_event();
    let is_mouse = event.is_mouse_event();
    if is_keyboard && current_state.widget_capturing_keyboard == Some(widget) {
        return (true, Ghost(false));
    }
    if is_mouse {
        let (provide, over) = should_provide_mouse_event(widget, is_over, event, current_state);
        if provide {
            return (true, over);
        }
        return (!is_keyboard && !is_mouse, over);
    }
    (!is_keyboard && !is_mouse, Ghost(false))
}

/// Whether the widget gets the mouse event: while it captures the mouse, or while no widget does
/// and the event lies over it, as `is_over` answers.
fn should_provide_mouse_event<S: Copy, X, F: Fn([S; 2]) -> bool>(
    widget: Index,
    is_over: &F,
    event: &UiEvent<S, X>,
    current_state: &InputState<S>,
) -> (r: (bool, Ghost<bool>))
    requires
        forall|p: [S; 2]| #[trigger] is_over.requires((p,)),
    ensures
        current_state.widget_capturing_mouse is None ==> over_decided(*is_over, *event, current_state@, r.1@),
        r.0 == (current_state.widget_capturing_mouse == Some(widget) || (
        current_state.widget_capturing_mouse is None && r.1@)),
{
    match current_state.widget_capturing_mouse {
        Some(idx) => (idx == widget, Ghost(false)),
        None => {
            let over = mouse_event_is_over_widget(is_over, event, current_state);
            (over, Ghost(over))
        },
    }
}

/// Whether the mouse event lies over the widget, as `is_over` answers: a click by where it
/// happened, a drag by its start or else its end, any other event by the mouse position.
fn mouse_event_is_over_widget<S: Copy, X, F: Fn([S; 2]) -> bool>(
    is_over: &F,
    event: &UiEvent<S, X>,
    current_state: &InputState<S>,
) -> (r: bool)
    requires
        forall|p: [S; 2]| #[trigger] is_over.requires((p,)),
    ensures
        over_decided(*is_over, *event, current_state@, r),
{
    match event {
        UiEvent::MouseClick(click) => is_over(click.location),
        UiEvent::MouseDrag(drag) => {
            if is_over(drag.start) {
                true
            } else {
                is_over(drag.end)
            }
        },
        _ => is_over(current_state.mouse_position),
    }
}

/// A widget gets a keyboard event that is no mouse event only while it captures the keyboard;
/// it gets no mouse event that is no keyboard event while another widget captures the mouse;
/// and it gets every event that concerns neither the keyboard nor the mouse.
pub proof fn law_widgets_get_only_their_input<S, X>(
    widget: Index,
    event: UiEvent<S, X>,
    v: InputView<S>,
    over: bool,
)
    ensures
        is_keyboard_event_spec(event) && !is_mouse_event_spec(event) && provided(widget, event, v, over)
            ==> v.capturing_keyboard == Some(widget),
        is_mouse_event_spec(event) && !is_keyboard_event_spec(event) && v.capturing_mouse is Some
            && v.capturing_mouse != Some(widget) ==> !provided(widget, event, v, over),
        !is_keyboard_event_spec(event) && !is_mouse_event_spec(event) ==> provided(widget, event, v, over),
        is_mouse_event_spec(event) && v.capturing_mouse == Some(widget) ==> provided(widget, event, v, over),
{
}

impl<S: Copy + std::ops::Sub<Output = S>, X: Copy> WidgetInput<S, X> {
    /// The events that the widget got, in order.
    pub closed spec fn events_spec(&self) -> Seq<UiEvent<S, X>> {
        self.events@
    }

    /// The input state, relative to the widget.
    pub closed spec fn state(&self) -> InputState<S> {
        self.current_state
    }

    /// Returns a `WidgetInput` with the events of `global_input` that pertain to the widget
    /// `widget` (see `widget_events`), made relative to the widget's middle `widget_xy`, and the
    /// current input state relative to it. Each event is judged in the input state right after
    /// it, starting from the state of the start of the update cycle, so that an event is
    /// interpreted in its own context; `is_over` tells, in window coordinates, whether a point
    /// lies over the widget's area.
    pub fn for_widget<F: Fn([S; 2]) -> bool>(
        widget: Index,
        widget_xy: [S; 2],
        is_over: F,
        global_input: &GlobalInput<S, X>,
    ) -> (r: Self)
        requires
            forall|p: [S; 2]| #[trigger] is_over.requires((p,)),
            forall|i: int|
                0 <= i < global_input.pending().len() ==> event_sub_ok(
                    #[trigger] global_input.pending()[i],
                    widget_xy,
                ),
            view_sub_ok(global_input.current()@, widget_xy),
        ensures
            exists|overs: Seq<bool>|
                {
                    &&& overs.len() == global_input.pending().len()
                    &&& forall|i: int|
                        0 <= i < overs.len() ==> #[trigger] over_decided_at(
                            is_over,
                            widget,
                            global_input.start()@,
                            global_input.pending(),
                            overs,
                            i,
                        )
                    &&& r.events_spec().len() == widget_events(
                        widget,
                        widget_xy,
                        global_input.start()@,
                        global_input.pending(),
                        overs,
                    ).len()
                    &&& S::obeys_sub_spec() ==> r.events_spec() == widget_events(
                        widget,
                        widget_xy,
                        global_input.start()@,
                        global_input.pending(),
                        overs,
                    )
                },
            S::obeys_sub_spec() ==> r.state()@ == relative_view(global_input.current()@, widget_xy),
            r.state().widget_capturing_keyboard == global_input.current().widget_capturing_keyboard,
            r.state().widget_capturing_mouse == global_input.current().widget_capturing_mouse,
            r.state().modifiers == global_input.current().modifiers,
    {
        let events = global_input.all_events();
        let mut current_state = *global_input.starting_state();
        let ghost start = current_state@;
        let mut widget_events_vec: Vec<UiEvent<S, X>> = Vec::new();
        let ghost mut overs: Seq<bool> = Seq::empty();
        assert(events@.take(0) =~= Seq::<UiEvent<S, X>>::empty());
        let mut i: usize = 0;
        while i < events.len()
            invariant
                forall|p: [S; 2]| #[trigger] is_over.requires((p,)),
                forall|k: int| 0 <= k < events@.len() ==> event_sub_ok(#[trigger] events@[k], widget_xy),
                events@ == global_input.pending(),
                start == global_input.start()@,
                0 <= i <= events@.len(),
                current_state@ == state_after(start, events@.take(i as int)),
                overs.len() == i,
                forall|k: int|
                    0 <= k < i ==> #[trigger] over_decided_at(is_over, widget, start, events@, overs, k),
                widget_events_vec@.len() == widget_events(
                    widget,
                    widget_xy,
                    start,
                    events@.take(i as int),
                    overs,
                ).len(),
                S::obeys_sub_spec() ==> widget_events_vec@ == widget_events(
                    widget,
                    widget_xy,
                    start,
                    events@.take(i as int),
                    overs,
                ),
            decreases events@.len() - i,
        {
            let ghost prefix = events@.take(i as int);
            let ghost next = events@.take(i + 1);
            assert(next.drop_last() =~= prefix);
            assert(next.last() == events@[i as int]);
            let event = &events[i];
            current_state.update(event);
            assert(current_state@ == state_after(start, next));
            let (provide, Ghost(over)) = should_provide_event(widget, &is_over, event, &current_state);
            if provide {
                widget_events_vec.push(event.relative_to(widget_xy));
            }
            let ghost old_overs = overs;
            proof {
                overs = overs.push(over);
                assert(overs.take(i as int) =~= old_overs);
                assert forall|k: int| 0 <= k < i + 1 implies #[trigger] over_decided_at(
                    is_over,
                    widget,
                    start,
                    events@,
                    overs,
                    k,
                ) by {
                    if k < i {
                        assert(over_decided_at(is_over, widget, start, events@, old_overs, k));
                        assert(overs[k] == old_overs[k]);
                    } else {
                        assert(events@.take(k + 1) =~= next);
                    }
                }
            }
            i = i + 1;
        }
        assert(events@.take(events@.len() as int) =~= events@);
        WidgetInput { events: widget_events_vec, current_state: global_input.current_state().relative_to(widget_xy) }
    }

    /// All the events that the widget got, in order.
    pub fn all_events(&self) -> (r: &[UiEvent<S, X>])
        ensures
            r@ == self.events_spec(),
    {
        self.events.as_slice()
    }

    /// The input state, relative to the widget.
    pub fn current_state(&self) -> (r: &InputState<S>)
        ensures
            *r == self.state(),
    {
        &self.current_state
    }

    /// The mouse position, relative to the widget.
    pub fn current_mouse_position(&self) -> (r: [S; 2])
        ensures
            r == self.state().mouse_position,
    {
        self.current_state.mouse_position
    }

    /// Whether the mouse is over the widget, as `is_over` answers for the mouse position
    /// relative to the widget.
    pub fn mouse_is_over_widget<F: Fn([S; 2]) -> bool>(&self, is_over: F) -> (r: bool)
        requires
            is_over.requires((self.state().mouse_position,)),
        ensures
            call_ensures(is_over, (self.state().mouse_position,), r),
    {
        is_over(self.current_mouse_position())
    }

    /// The mouse position relative to the widget if the mouse is over the widget, as `is_over`
    /// answers for that position; `None` otherwise.
    pub fn maybe_mouse_position<F: Fn([S; 2]) -> bool>(&self, is_over: F) -> (r: Option<[S; 2]>)
        requires
            is_over.requires((self.state().mouse_position,)),
        ensures
            exists|over: bool|
                {
                    &&& #[trigger] call_ensures(is_over, (self.state().mouse_position,), over)
                    &&& r == if over {
                        Some(self.state().mouse_position)
                    } else {
                        None
                    }
                },
    {
        if self.mouse_is_over_widget(is_over) {
            Some(self.current_mouse_position())
        } else {
            None
        }
    }
}

} // verus!
