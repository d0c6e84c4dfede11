//! The state of the mouse: its position, its buttons, and the simple events derived from them.
//!
//! `S` is the scalar type of positions and scroll amounts; a position is a `[S; 2]`. `T` is the
//! type of the instants at which buttons were pressed, read from a clock by the caller.

pub mod simple_events;
pub mod button_map;

use vstd::prelude::*;
use crate::events::mouse_button::{MouseButton, NUM_MOUSE_BUTTONS, button_number, button_of_number};
use crate::mouse::button_map::{ButtonMap, relative_state, states_sub_ok};
use crate::mouse::simple_events::{
    MouseButtonDown, MouseClick, MouseDragEvent, Scroll, SimpleMouseEvent,
};
use vstd::std_specs::ops::SubSpec;

verus! {

/// The current state of a mouse button.
#[derive(Clone, Copy, Debug)]
pub struct ButtonState<S, T> {
    /// The button has been pressed since the last update.
    pub was_just_pressed: bool,
    /// The button has been released since the last update.
    pub was_just_released: bool,
    /// The current position of the button.
    pub position: ButtonPosition<S, T>,
    /// The simple event of this button since the last update, if any.
    pub event: Option<SimpleMouseEvent<S, T>>,
}

/// Represents the current state of a mouse button.
#[derive(Clone, Copy, Debug, PartialEq)]
pub enum ButtonPosition<S, T> {
    /// The mouse button is currently up.
    Up,
    /// The mouse button is currently down (pressed).
    Down(MouseButtonDown<S, T>),
}

/// The state of a button that is up, with nothing happened since the last update.
pub open spec fn initial_button_state<S, T>() -> ButtonState<S, T> {
    ButtonState {
        was_just_pressed: false,
        was_just_released: false,
        position: ButtonPosition::Up,
        event: None,
    }
}

impl<S: Copy, T: Copy> ButtonState<S, T> {
    /// Constructor for a default `ButtonState`: up, with no event and neither flag set.
    pub fn new() -> (r: Self)
        ensures
            r == initial_button_state::<S, T>(),
    {
        ButtonState {
            was_just_released: false,
            was_just_pressed: false,
            position: ButtonPosition::Up,
            event: None,
        }
    }

    /// Reset the `was_just_released` and `was_just_pressed` flags.
    pub fn reset_pressed_and_released(&mut self)
        ensures
            *final(self) == (ButtonState {
                was_just_pressed: false,
                was_just_released: false,
                ..*old(self)
            }),
    {
        self.was_just_released = false;
        self.was_just_pressed = false;
    }

    /// Returns true if the mouse button is currently down, otherwise false.
    pub fn is_down(&self) -> (r: bool)
        ensures
            r == (self.position is Down),
    {
        match self.position {
            ButtonPosition::Down(_) => true,
            _ => false,
        }
    }

    /// Returns true if the mouse button is currently up, otherwise false.
    pub fn is_up(&self) -> (r: bool)
        ensures
            r == (self.position is Up),
    {
        match self.position {
            ButtonPosition::Up => true,
            _ => false,
        }
    }
}

/// Represents the current state of the mouse.
#[derive(Clone, Copy, Debug)]
pub struct Mouse<S, T> {
    /// Position of the mouse cursor.
    pub xy: [S; 2],
    /// Amount that the mouse has scrolled since the last render.
    pub scroll: Scroll<S>,
    /// Movements less than this threshold will not be considered drags.
    pub drag_distance_threshold: S,
    /// Map of `MouseButton` to `ButtonState`.
    pub buttons: ButtonMap<S, T>,
    /// Holds a scroll event if there is one.
    pub maybe_scroll_event: Option<SimpleMouseEvent<S, T>>,
}

/// Whether `drag` is a possible answer of `is_drag` for a move of the mouse to `xy` while the
/// button is in state `st`: for a button that is down, `is_drag` applied to where it went down
/// and to `xy`; for a button that is up, `false` (`is_drag` is not asked).
pub open spec fn drag_decided<S, T, F: Fn([S; 2], [S; 2]) -> bool>(
    is_drag: F,
    st: ButtonState<S, T>,
    xy: [S; 2],
    drag: bool,
) -> bool {
    match st.position {
        ButtonPosition::Down(info) => call_ensures(is_drag, (info.position, xy), drag),
        ButtonPosition::Up => !drag,
    }
}

/// Whether `drags` holds a possible answer of `is_drag` for each of the button states `states`
/// on a move of the mouse to `xy`.
pub open spec fn drags_decided<S, T, F: Fn([S; 2], [S; 2]) -> bool>(
    is_drag: F,
    states: Seq<ButtonState<S, T>>,
    xy: [S; 2],
    drags: Seq<bool>,
) -> bool {
    &&& drags.len() == states.len()
    &&& forall|i: int|
        0 <= i < states.len() ==> #[trigger] drag_decided(is_drag, states[i], xy, drags[i])
}

/// The state of `button` after the mouse moved to `xy` at time `now`: if the button is down and
/// the move is a drag, its event becomes a drag, not released, from where and when the button
/// went down to `xy` at `now`; otherwise the state is unchanged.
pub open spec fn moved_state<S, T>(
    st: ButtonState<S, T>,
    button: MouseButton,
    xy: [S; 2],
    now: T,
    drag: bool,
) -> ButtonState<S, T> {
    match st.position {
        ButtonPosition::Down(info) => if drag {
            ButtonState {
                event: Some(
                    SimpleMouseEvent::Drag(
                        MouseDragEvent {
                            mouse_button: button,
                            start: info,
                            current: MouseButtonDown { time: now, position: xy },
                            button_released: false,
                        },
                    ),
                ),
                ..st
            }
        } else {
            st
        },
        ButtonPosition::Up => st,
    }
}

/// The states of all buttons after the mouse moved to `xy` at time `now`, with the drag
/// decisions `drags`.
pub open spec fn moved_states<S, T>(
    states: Seq<ButtonState<S, T>>,
    xy: [S; 2],
    now: T,
    drags: Seq<bool>,
) -> Seq<ButtonState<S, T>> {
    Seq::new(states.len(), |i: int| moved_state(states[i], button_of_number(i), xy, now, drags[i]))
}

/// The state of `button` after it went down at `xy` at time `now`.
pub open spec fn pressed_state<S, T>(st: ButtonState<S, T>, xy: [S; 2], now: T) -> ButtonState<S, T> {
    ButtonState {
        position: ButtonPosition::Down(MouseButtonDown { time: now, position: xy }),
        was_just_pressed: true,
        ..st
    }
}

/// The event of a release of `button` at `xy` at time `now`, in state `st`: for a button that
/// was down, a released drag from where and when it went down if the move was a drag, else a
/// click at `xy`; for a button that was up, none.
pub open spec fn release_event<S, T>(
    st: ButtonState<S, T>,
    button: MouseButton,
    xy: [S; 2],
    now: T,
    drag: bool,
) -> Option<SimpleMouseEvent<S, T>> {
    match st.position {
        ButtonPosition::Down(info) => if drag {
            Some(
                SimpleMouseEvent::Drag(
                    MouseDragEvent {
                        mouse_button: button,
                        start: info,
                        current: MouseButtonDown { time: now, position: xy },
                        button_released: true,
                    },
                ),
            )
        } else {
            Some(SimpleMouseEvent::Click(MouseClick { mouse_button: button, position: xy }))
        },
        ButtonPosition::Up => None,
    }
}

/// The state of `button` after its release at `xy` at time `now`: up, just released, with the
/// event of the release.
pub open spec fn released_state<S, T>(
    st: ButtonState<S, T>,
    button: MouseButton,
    xy: [S; 2],
    now: T,
    drag: bool,
) -> ButtonState<S, T> {
    ButtonState {
        position: ButtonPosition::Up,
        was_just_released: true,
        event: release_event(st, button, xy, now, drag),
        ..st
    }
}

/// The state of a button after a reset: neither flag set and no event.
pub open spec fn reset_state<S, T>(st: ButtonState<S, T>) -> ButtonState<S, T> {
    ButtonState { was_just_pressed: false, was_just_released: false, event: None, ..st }
}

/// Iterator over mouse events: the event of each button in the order of the buttons' numbers,
/// then the scroll event.
pub struct MouseEventIterator<'a, S, T> {
    mouse: &'a Mouse<S, T>,
    idx: u32,
}

/// The index of the first button from `i` on whose state holds an event, or the number of
/// states if there is none.
pub open spec fn first_event_from<S, T>(states: Seq<ButtonState<S, T>>, i: int) -> int
    decreases states.len() - i,
{
    if i < 0 || i >= states.len() {
        states.len() as int
    } else if states[i].event is Some {
        i
    } else {
        first_event_from(states, i + 1)
    }
}

proof fn lemma_first_event_from<S, T>(states: Seq<ButtonState<S, T>>, i: int)
    requires
        0 <= i <= states.len(),
    ensures
        i <= first_event_from(states, i) <= states.len(),
        first_event_from(states, i) < states.len() ==> states[first_event_from(states, i)].event is Some,
        forall|j: int| i <= j < first_event_from(states, i) ==> #[trigger] states[j].event is None,
    decreases states.len() - i,
{
    if i < states.len() && states[i].event is None {
        lemma_first_event_from(states, i + 1);
    }
}

impl<'a, S, T> MouseEventIterator<'a, S, T> {
    #[verifier::type_invariant]
    spec fn inv(self) -> bool {
        self.idx <= NUM_MOUSE_BUTTONS
    }

    /// The mouse whose events are iterated.
    pub closed spec fn mouse(self) -> Mouse<S, T> {
        *self.mouse
    }

    /// The number of the next button whose event is looked at.
    pub closed spec fn index(self) -> int {
        self.idx as int
    }

    fn new(mouse: &'a Mouse<S, T>) -> (r: Self)
        ensures
            r.mouse() == *mouse,
            r.index() == 0,
    {
        MouseEventIterator { mouse, idx: 0 }
    }
}

impl<'a, S: Copy, T: Copy> MouseEventIterator<'a, S, T> {
    /// Returns the next mouse event: the event of the first button from the current index on
    /// that holds one, moving past it; once no button is left, the scroll event, if any, every
    /// time.
    pub fn next(&mut self) -> (r: Option<SimpleMouseEvent<S, T>>)
        ensures
            final(self).mouse() == old(self).mouse(),
            ({
                let states = old(self).mouse().buttons@;
                let k = first_event_from(states, old(self).index());
                if k < NUM_MOUSE_BUTTONS {
                    &&& r == states[k].event
                    &&& final(self).index() == k + 1
                } else {
                    &&& r == old(self).mouse().maybe_scroll_event
                    &&& final(self).index() == NUM_MOUSE_BUTTONS
                }
            }),
    {
        proof {
            use_type_invariant(&*self);
            self.mouse.buttons.lemma_len();
            lemma_first_event_from(self.mouse.buttons@, self.idx as int);
        }
        let ghost states = self.mouse.buttons@;
        let ghost k = first_event_from(states, self.idx as int);
        let mouse = self.mouse;
        let mut idx = self.idx;
        let mut evt: Option<SimpleMouseEvent<S, T>> = None;
        while (idx as usize) < NUM_MOUSE_BUTTONS && evt.is_none()
            invariant
                states == mouse.buttons@,
                states.len() == NUM_MOUSE_BUTTONS,
                old(self).idx <= idx <= NUM_MOUSE_BUTTONS,
                k == first_event_from(states, old(self).idx as int),
                old(self).idx <= k <= NUM_MOUSE_BUTTONS,
                k < NUM_MOUSE_BUTTONS ==> states[k].event is Some,
                forall|j: int| old(self).idx <= j < k ==> #[trigger] states[j].event is None,
                evt is None ==> idx <= k,
                evt is Some ==> idx == k + 1 && evt == states[k].event,
            decreases NUM_MOUSE_BUTTONS - idx,
        {
            let button_state = mouse.buttons.get(MouseButton::from_number(idx));
            evt = button_state.event;
            idx = idx + 1;
        }
        if (idx as usize) == NUM_MOUSE_BUTTONS && evt.is_none() {
            evt = mouse.maybe_scroll_event;
        }
        self.idx = idx;
        evt
    }
}

impl<S: Copy, T: Copy> Mouse<S, T> {
    /// Constructor for a default `Mouse`: at `[zero, zero]`, with no scroll, all buttons up and
    /// the given drag threshold.
    pub fn new(zero: S, drag_distance_threshold: S) -> (r: Self)
        ensures
            r.xy == [zero, zero],
            r.scroll == (Scroll { x: zero, y: zero }),
            r.drag_distance_threshold == drag_distance_threshold,
            r.buttons@ == Seq::new(NUM_MOUSE_BUTTONS as nat, |i: int| initial_button_state::<S, T>()),
            r.maybe_scroll_event is None,
    {
        Mouse {
            xy: [zero, zero],
            scroll: Scroll { x: zero, y: zero },
            drag_distance_threshold,
            maybe_scroll_event: None,
            buttons: ButtonMap::new(),
        }
    }

    /// Call whenever the mouse moves: sets the new position of the mouse and creates a drag
    /// event for each button held down whose start is far enough from `xy`, as `is_drag`
    /// decides.
    pub fn move_to<F: Fn([S; 2], [S; 2]) -> bool>(&mut self, xy: [S; 2], now: T, is_drag: F)
        requires
            forall|a: [S; 2], b: [S; 2]| #[trigger] is_drag.requires((a, b)),
        ensures
            exists|drags: Seq<bool>|
                {
                    &&& #[trigger] drags_decided(is_drag, old(self).buttons@, xy, drags)
                    &&& final(self).buttons@ == moved_states(old(self).buttons@, xy, now, drags)
                },
            final(self).xy == xy,
            final(self).scroll == old(self).scroll,
            final(self).drag_distance_threshold == old(self).drag_distance_threshold,
            final(self).maybe_scroll_event == old(self).maybe_scroll_event,
    {
        let ghost states = self.buttons@;
        let ghost mut drags: Seq<bool> = Seq::empty();
        proof {
            self.buttons.lemma_len();
        }
        let mut i: usize = 0;
        while i < NUM_MOUSE_BUTTONS
            invariant
                i <= NUM_MOUSE_BUTTONS,
                forall|a: [S; 2], b: [S; 2]| #[trigger] is_drag.requires((a, b)),
                states.len() == NUM_MOUSE_BUTTONS,
                self.buttons@.len() == NUM_MOUSE_BUTTONS,
                drags.len() == i,
                forall|k: int| 0 <= k < i ==> #[trigger] drag_decided(is_drag, states[k], xy, drags[k]),
                forall|k: int|
                    0 <= k < i ==> #[trigger] self.buttons@[k] == moved_state(
                        states[k],
                        button_of_number(k),
                        xy,
                        now,
                        drags[k],
                    ),
                forall|k: int| i <= k < NUM_MOUSE_BUTTONS ==> #[trigger] self.buttons@[k] == states[k],
                self.xy == old(self).xy,
                self.scroll == old(self).scroll,
                self.drag_distance_threshold == old(self).drag_distance_threshold,
                self.maybe_scroll_event == old(self).maybe_scroll_event,
            decreases NUM_MOUSE_BUTTONS - i,
        {
            let button = MouseButton::from_number(i as u32);
            let st = *self.buttons.get(button);
            let maybe_event = self.get_drag_event_for_move(button, &st, xy, now, &is_drag);
            let ghost d = maybe_event is Some;
            if let Some(event) = maybe_event {
                let state = self.buttons.get_mut(button);
                state.event = Some(event);
            }
            proof {
                drags = drags.push(d);
            }
            i = i + 1;
        }
        self.xy = xy;
        proof {
            assert(drags_decided(is_drag, states, xy, drags));
            assert(self.buttons@ =~= moved_states(states, xy, now, drags));
        }
    }

    /// Sends the mouse a button down event: the button goes down at the mouse's position at
    /// time `now`.
    pub fn button_down(&mut self, button: MouseButton, now: T)
        ensures
            final(self).buttons@ == old(self).buttons@.update(
                button_number(button) as int,
                pressed_state(old(self).buttons@[button_number(button) as int], old(self).xy, now),
            ),
            final(self).xy == old(self).xy,
            final(self).scroll == old(self).scroll,
            final(self).drag_distance_threshold == old(self).drag_distance_threshold,
            final(self).maybe_scroll_event == old(self).maybe_scroll_event,
    {
        let mouse_position = self.xy;
        let state = self.buttons.get_mut(button);
        state.position = ButtonPosition::Down(MouseButtonDown { time: now, position: mouse_position });
        state.was_just_pressed = true;
    }

    /// Called when a mouse button is released at time `now`: the button goes up and its event
    /// becomes a click at the mouse's position, or a released drag if `is_drag` decides that the
    /// move from where it went down is one; a button that was not down gets no event.
    pub fn button_up<F: Fn([S; 2], [S; 2]) -> bool>(&mut self, button: MouseButton, now: T, is_drag: F)
        requires
            forall|a: [S; 2], b: [S; 2]| #[trigger] is_drag.requires((a, b)),
        ensures
            exists|drag: bool|
                {
                    &&& #[trigger] drag_decided(
                        is_drag,
                        old(self).buttons@[button_number(button) as int],
                        old(self).xy,
                        drag,
                    )
                    &&& final(self).buttons@ == old(self).buttons@.update(
                        button_number(button) as int,
                        released_state(
                            old(self).buttons@[button_number(button) as int],
                            button,
                            old(self).xy,
                            now,
                            drag,
                        ),
                    )
                },
            final(self).xy == old(self).xy,
            final(self).scroll == old(self).scroll,
            final(self).drag_distance_threshold == old(self).drag_distance_threshold,
            final(self).maybe_scroll_event == old(self).maybe_scroll_event,
    {
        let ghost st0 = self.buttons@[button_number(button) as int];
        let mut drag = false;
        let new_simple_event = match self.buttons.get(button).position {
            ButtonPosition::Down(mouse_down_info) => {
                drag = is_drag(mouse_down_info.position, self.xy);
                if drag {
                    Some(
                        SimpleMouseEvent::Drag(
                            MouseDragEvent {
                                mouse_button: button,
                                start: MouseButtonDown {
                                    time: mouse_down_info.time,
                                    position: mouse_down_info.position,
                                },
                                current: MouseButtonDown { time: now, position: self.xy },
                                button_released: true,
                            },
                        ),
                    )
                } else {
                    Some(SimpleMouseEvent::Click(MouseClick { mouse_button: button, position: self.xy }))
                }
            },
            _ => None,
        };
        assert(drag_decided(is_drag, st0, self.xy, drag));
        let state = self.buttons.get_mut(button);
        state.position = ButtonPosition::Up;
        state.was_just_released = true;
        state.event = new_simple_event;
    }

    /// Called when the mouse wheel is scrolled: holds a scroll event by `x` and `y`.
    pub fn scroll(&mut self, x: S, y: S)
        ensures
            *final(self) == (Mouse {
                maybe_scroll_event: Some(SimpleMouseEvent::Scroll(Scroll { x, y })),
                ..*old(self)
            }),
    {
        self.maybe_scroll_event = Some(SimpleMouseEvent::Scroll(Scroll { x, y }));
    }

    /// Resets the state of the mouse: clears the flags and the event of every button, drops any
    /// scroll event, and sets the scroll amounts to `zero`.
    pub fn reset(&mut self, zero: S)
        ensures
            final(self).buttons@ == old(self).buttons@.map_values(|st: ButtonState<S, T>| reset_state(st)),
            final(self).maybe_scroll_event is None,
            final(self).scroll == (Scroll { x: zero, y: zero }),
            final(self).xy == old(self).xy,
            final(self).drag_distance_threshold == old(self).drag_distance_threshold,
    {
        let ghost states = self.buttons@;
        proof {
            self.buttons.lemma_len();
        }
        let button_states = self.buttons.iter_mut();
        let mut i: usize = 0;
        while i < NUM_MOUSE_BUTTONS
            invariant
                i <= NUM_MOUSE_BUTTONS,
                states.len() == NUM_MOUSE_BUTTONS,
                button_states@.len() == NUM_MOUSE_BUTTONS,
                forall|k: int| 0 <= k < i ==> #[trigger] button_states@[k] == reset_state(states[k]),
                forall|k: int| i <= k < NUM_MOUSE_BUTTONS ==> #[trigger] button_states@[k] == states[k],
            decreases NUM_MOUSE_BUTTONS - i,
        {
            button_states[i].reset_pressed_and_released();
            button_states[i].event = None;
            i = i + 1;
        }
        assert(button_states@ =~= states.map_values(|st: ButtonState<S, T>| reset_state(st)));
        self.maybe_scroll_event = None;
        self.scroll.x = zero;
        self.scroll.y = zero;
    }

    /// Returns an iterator over the mouse events since the last update.
    pub fn events(&self) -> (r: MouseEventIterator<'_, S, T>)
        ensures
            r.mouse() == *self,
            r.index() == 0,
    {
        MouseEventIterator::new(self)
    }

    /// The drag event for a move of the mouse to `current_xy` at time `now`, for a button in
    /// state `current_button_state`: a drag if the button is down and `is_drag` decides that the
    /// move from where it went down is one; none otherwise.
    fn get_drag_event_for_move<F: Fn([S; 2], [S; 2]) -> bool>(
        &self,
        button: MouseButton,
        current_button_state: &ButtonState<S, T>,
        current_xy: [S; 2],
        now: T,
        is_drag: &F,
    ) -> (r: Option<SimpleMouseEvent<S, T>>)
        requires
            forall|a: [S; 2], b: [S; 2]| #[trigger] is_drag.requires((a, b)),
        ensures
            drag_decided(*is_drag, *current_button_state, current_xy, r is Some),
            r is Some ==> r == moved_state(*current_button_state, button, current_xy, now, true).event,
    {
        match current_button_state.position {
            ButtonPosition::Down(info) => {
                if is_drag(info.position, current_xy) {
                    Some(
                        SimpleMouseEvent::Drag(
                            MouseDragEvent {
                                start: info,
                                current: MouseButtonDown { time: now, position: current_xy },
                                mouse_button: button,
                                button_released: false,
                            },
                        ),
                    )
                } else {
                    None
                }
            },
            _ => None,
        }
    }
}

/// A button pressed at `xy` at time `pressed_at` and released there at time `now` gets, as its
/// event, a click at `xy` if the release is no drag, or else a released drag from `xy` at
/// `pressed_at` to `xy` at `now`; it ends up, and its flags record both the press and the
/// release.
pub proof fn law_press_then_release<S, T>(
    st: ButtonState<S, T>,
    button: MouseButton,
    xy: [S; 2],
    pressed_at: T,
    now: T,
    drag: bool,
)
    ensures
        ({
            let after = released_state(pressed_state(st, xy, pressed_at), button, xy, now, drag);
            &&& after.position is Up
            &&& after.was_just_pressed
            &&& after.was_just_released
            &&& !drag ==> after.event == Some(
                SimpleMouseEvent::<S, T>::Click(MouseClick { mouse_button: button, position: xy }),
            )
            &&& drag ==> after.event == Some(
                SimpleMouseEvent::Drag(
                    MouseDragEvent {
                        mouse_button: button,
                        start: MouseButtonDown { time: pressed_at, position: xy },
                        current: MouseButtonDown { time: now, position: xy },
                        button_released: true,
                    },
                ),
            )
        }),
{
}

/// Moving the mouse changes neither whether a button is down, nor where and when it went down,
/// nor its flags; so the drag that a move makes, and the drag of a later release, start where
/// and when the button went down, whatever moves came between.
pub proof fn law_moves_keep_the_press<S, T>(
    st: ButtonState<S, T>,
    button: MouseButton,
    xy: [S; 2],
    now: T,
    drag: bool,
    release_xy: [S; 2],
    release_now: T,
    release_drag: bool,
)
    ensures
        moved_state(st, button, xy, now, drag).position == st.position,
        moved_state(st, button, xy, now, drag).was_just_pressed == st.was_just_pressed,
        moved_state(st, button, xy, now, drag).was_just_released == st.was_just_released,
        st.position is Down && drag ==> (moved_state(st, button, xy, now, drag).event matches Some(
            SimpleMouseEvent::Drag(d),
        ) ==> d.start == st.position->0),
        st.position is Down ==> (release_event(
            moved_state(st, button, xy, now, drag),
            button,
            release_xy,
            release_now,
            release_drag,
        ) matches Some(SimpleMouseEvent::Drag(d)) ==> d.start == st.position->0),
{
}

/// After a reset no button holds an event: looking for the next button event from any index
/// finds none.
pub proof fn law_no_button_events_after_reset<S, T>(states: Seq<ButtonState<S, T>>, i: int)
    requires
        0 <= i <= states.len(),
    ensures
        first_event_from(states.map_values(|st: ButtonState<S, T>| reset_state(st)), i) == states.len(),
    decreases states.len() - i,
{
    if i < states.len() {
        law_no_button_events_after_reset(states, i + 1);
    }
}

impl<S: Copy + std::ops::Sub<Output = S>, T: Copy> Mouse<S, T> {
    /// Returns the mouse state with all positions relative to the given point: the mouse's
    /// position and those of the buttons' events.
    pub fn relative_to(self, xy: [S; 2]) -> (r: Self)
        requires
            self.xy[0].sub_req(xy[0]),
            self.xy[1].sub_req(xy[1]),
            states_sub_ok(self.buttons@, xy),
        ensures
            S::obeys_sub_spec() ==> r.xy == [self.xy[0].sub_spec(xy[0]), self.xy[1].sub_spec(xy[1])],
            S::obeys_sub_spec() ==> r.buttons@ == Seq::new(
                NUM_MOUSE_BUTTONS as nat,
                |i: int| relative_state(self.buttons@[i], xy),
            ),
            r.scroll == self.scroll,
            r.drag_distance_threshold == self.drag_distance_threshold,
            r.maybe_scroll_event == self.maybe_scroll_event,
    {
        let relative_button_map = self.buttons.relative_to(xy);
        Mouse {
            xy: crate::utils::vec2_sub(self.xy, xy),
            buttons: relative_button_map,
            ..self
        }
    }
}

} // verus!
