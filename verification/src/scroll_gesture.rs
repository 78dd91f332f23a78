//! The decisions a scroll area makes on each pointer and scroll event: whether a scrollbar takes the event, when a hand on the screen stops what was coasting, when a gesture becomes a scroll and cancels its content's pending tap, and when a fling is launched.
//!
//! The geometry stays with the caller: where a press landed on a bar, and whether the gesture's travel has passed the slop, arrive here as answers.

use vstd::prelude::*;

use crate::reorder::Axis;

verus! {

/// Where a press landed on a scrollbar, as the bar's geometry found it.
#[derive(Clone, Copy, Debug, PartialEq, Eq, Structural)]
pub enum BarPress {
    /// On the thumb of the bar along this axis: the pointer takes hold of it.
    Thumb(Axis),
    /// On the track of the bar along this axis, beside the thumb: the content pages towards the press.
    Track(Axis),
}

/// An event, as far as the scroll area's decisions read it.
#[derive(Clone, Copy, Debug, PartialEq, Eq, Structural)]
pub enum GestureEvent {
    /// A pointer pressed, on a bar or (`None`) elsewhere.
    Pressed { bar: Option<BarPress> },
    /// The pointer moved.
    Moved,
    /// The pointer was released.
    Released,
    /// The content was scrolled; `past_slop` tells whether the gesture's travel, this scroll's added, passes the slop past which it is a scroll and not a tap.
    Scrolled { past_slop: bool },
    /// Fingers came off the touchpad.
    ScrollEnded,
    /// Anything else.
    Other,
}

/// What the scroll area does on an event. Unless `handled`, the event then goes on to the content and the scrolling itself.
#[derive(Clone, Copy, Debug, PartialEq, Eq, Structural)]
pub struct GestureStep {
    /// A scrollbar took the event: nothing else sees it.
    pub handled: bool,
    /// Stop the fling and every glide where they stand.
    pub catch_all: bool,
    /// Forget the velocity the gesture had built up.
    pub clear_velocity: bool,
    /// Stop the fling where it stands.
    pub catch_fling: bool,
    /// Start the gesture's travel from nothing.
    pub reset_travel: bool,
    /// Add this scroll's distance to the gesture's travel.
    pub count_travel: bool,
    /// Tell the content the pointer left, cancelling its pending tap.
    pub cancel_tap: bool,
    /// Page the content a viewport along this axis, towards the press.
    pub page: Option<Axis>,
    /// Move the held bar along this axis to the pointer.
    pub drag_bar: Option<Axis>,
    /// Carry the gesture on as a fling, if it was still moving.
    pub launch_fling: bool,
}

/// The state the decisions read: whether a press is down, whether its tap was cancelled already, and which bar, if any, the pointer holds.
#[derive(Clone, Copy, Debug, PartialEq, Eq, Structural)]
pub struct GestureView {
    pub press_active: bool,
    pub tap_cancelled: bool,
    pub bar_drag: Option<Axis>,
}

/// Doing nothing.
pub open spec fn no_step() -> GestureStep {
    GestureStep {
        handled: false,
        catch_all: false,
        clear_velocity: false,
        catch_fling: false,
        reset_travel: false,
        count_travel: false,
        cancel_tap: false,
        page: None,
        drag_bar: None,
        launch_fling: false,
    }
}

/// The state after `e` and what is done on it, from state `s`.
pub open spec fn gesture_step(s: GestureView, e: GestureEvent) -> (GestureView, GestureStep) {
    match e {
        GestureEvent::Pressed { bar: Some(BarPress::Thumb(axis)) } => (
            GestureView { bar_drag: Some(axis), ..s },
            GestureStep { handled: true, catch_all: true, ..no_step() },
        ),
        GestureEvent::Pressed { bar: Some(BarPress::Track(axis)) } => (
            s,
            GestureStep { handled: true, catch_all: true, page: Some(axis), ..no_step() },
        ),
        GestureEvent::Pressed { bar: None } => (
            GestureView { press_active: true, tap_cancelled: false, ..s },
            GestureStep { catch_all: true, clear_velocity: true, reset_travel: true, ..no_step() },
        ),
        GestureEvent::Moved => match s.bar_drag {
            Some(axis) => (s, GestureStep { handled: true, drag_bar: Some(axis), ..no_step() }),
            None => (s, no_step()),
        },
        GestureEvent::Released => if s.bar_drag is Some {
            (GestureView { bar_drag: None, ..s }, GestureStep { handled: true, ..no_step() })
        } else {
            (GestureView { press_active: false, ..s }, GestureStep { launch_fling: true, ..no_step() })
        },
        GestureEvent::Scrolled { past_slop } => {
            let counts = s.press_active && !s.tap_cancelled;
            let cancels = counts && past_slop;
            (
                GestureView { tap_cancelled: s.tap_cancelled || cancels, ..s },
                GestureStep { catch_fling: true, count_travel: counts, cancel_tap: cancels, ..no_step() },
            )
        },
        GestureEvent::ScrollEnded => (s, GestureStep { launch_fling: true, ..no_step() }),
        GestureEvent::Other => (s, no_step()),
    }
}

/// A scroll area's gesture state.
pub struct ScrollGesture {
    press_active: bool,
    tap_cancelled: bool,
    bar_drag: Option<Axis>,
}

impl View for ScrollGesture {
    type V = GestureView;

    closed spec fn view(&self) -> GestureView {
        GestureView { press_active: self.press_active, tap_cancelled: self.tap_cancelled, bar_drag: self.bar_drag }
    }
}

/// No press down, no tap cancelled, no bar held.
pub open spec fn idle_gesture() -> GestureView {
    GestureView { press_active: false, tap_cancelled: false, bar_drag: None }
}

fn quiet() -> (r: GestureStep)
    ensures
        r == no_step(),
{
    GestureStep {
        handled: false,
        catch_all: false,
        clear_velocity: false,
        catch_fling: false,
        reset_travel: false,
        count_travel: false,
        cancel_tap: false,
        page: None,
        drag_bar: None,
        launch_fling: false,
    }
}

impl ScrollGesture {
    /// No press down, no tap cancelled, no bar held.
    pub fn new() -> (r: Self)
        ensures
            r@ == idle_gesture(),
    {
        ScrollGesture { press_active: false, tap_cancelled: false, bar_drag: None }
    }

    /// Whether the pointer holds a bar.
    pub fn holds_bar(&self) -> (r: bool)
        ensures
            r == self@.bar_drag is Some,
    {
        self.bar_drag.is_some()
    }

    /// Decides what to do on `event`, and moves to the state after it.
    pub fn step(&mut self, event: GestureEvent) -> (r: GestureStep)
        ensures
            (final(self)@, r) == gesture_step(old(self)@, event),
    {
        match event {
            GestureEvent::Pressed { bar: Some(BarPress::Thumb(axis)) } => {
                self.bar_drag = Some(axis);
                GestureStep { handled: true, catch_all: true, ..quiet() }
            },
            GestureEvent::Pressed { bar: Some(BarPress::Track(axis)) } => {
                GestureStep { handled: true, catch_all: true, page: Some(axis), ..quiet() }
            },
            GestureEvent::Pressed { bar: None } => {
                self.press_active = true;
                self.tap_cancelled = false;
                GestureStep { catch_all: true, clear_velocity: true, reset_travel: true, ..quiet() }
            },
            GestureEvent::Moved => match self.bar_drag {
                Some(axis) => GestureStep { handled: true, drag_bar: Some(axis), ..quiet() },
                None => quiet(),
            },
            GestureEvent::Released => {
                if self.bar_drag.is_some() {
                    self.bar_drag = None;
                    GestureStep { handled: true, ..quiet() }
                } else {
                    self.press_active = false;
                    GestureStep { launch_fling: true, ..quiet() }
                }
            },
            GestureEvent::Scrolled { past_slop } => {
                let counts = self.press_active && !self.tap_cancelled;
                let cancels = counts && past_slop;
                if cancels {
                    self.tap_cancelled = true;
                }
                GestureStep { catch_fling: true, count_travel: counts, cancel_tap: cancels, ..quiet() }
            },
            GestureEvent::ScrollEnded => GestureStep { launch_fling: true, ..quiet() },
            GestureEvent::Other => quiet(),
        }
    }
}

/// A press on a scrollbar is the bar's: the content under it never sees the press, and nothing of the content's gesture changes.
pub proof fn lemma_a_press_on_a_bar_is_the_bars(s: GestureView, bar: BarPress)
    ensures
        gesture_step(s, GestureEvent::Pressed { bar: Some(bar) }).1.handled,
        gesture_step(s, GestureEvent::Pressed { bar: Some(bar) }).0.press_active == s.press_active,
        gesture_step(s, GestureEvent::Pressed { bar: Some(bar) }).0.tap_cancelled == s.tap_cancelled,
{
}

/// A wheel scroll, with no press down, never cancels anything.
pub proof fn lemma_a_wheel_cancels_nothing(s: GestureView, past_slop: bool)
    requires
        !s.press_active,
    ensures
        !gesture_step(s, GestureEvent::Scrolled { past_slop }).1.cancel_tap,
        !gesture_step(s, GestureEvent::Scrolled { past_slop }).1.count_travel,
{
}

/// A gesture cancels its content's tap once: after it has, no later scroll of the same press cancels again; a new press starts a fresh tap candidate.
pub proof fn lemma_a_tap_is_cancelled_once(s: GestureView, first: bool, second: bool)
    requires
        gesture_step(s, GestureEvent::Scrolled { past_slop: first }).1.cancel_tap,
    ensures
        !gesture_step(gesture_step(s, GestureEvent::Scrolled { past_slop: first }).0, GestureEvent::Scrolled { past_slop: second }).1.cancel_tap,
        gesture_step(gesture_step(s, GestureEvent::Pressed { bar: None }).0, GestureEvent::Scrolled { past_slop: second }).1.cancel_tap
            == second,
{
}

/// While a press is down and its tap stands, a scroll past the slop cancels the tap.
pub proof fn lemma_past_the_slop_a_press_is_a_scroll(s: GestureView)
    requires
        s.press_active,
        !s.tap_cancelled,
    ensures
        gesture_step(s, GestureEvent::Scrolled { past_slop: true }).1.cancel_tap,
        gesture_step(s, GestureEvent::Scrolled { past_slop: true }).0.tap_cancelled,
        !gesture_step(s, GestureEvent::Scrolled { past_slop: false }).1.cancel_tap,
{
}

/// Letting go of a held bar only lets go of it: it is the bar's, launches no fling, and the next move no longer drags.
pub proof fn lemma_letting_go_of_a_bar(s: GestureView)
    requires
        s.bar_drag is Some,
    ensures
        gesture_step(s, GestureEvent::Released).1.handled,
        !gesture_step(s, GestureEvent::Released).1.launch_fling,
        gesture_step(gesture_step(s, GestureEvent::Released).0, GestureEvent::Moved).1 == no_step(),
{
}

/// A release that holds no bar carries the gesture on as a fling and ends the press; a new press stops everything moving.
pub proof fn lemma_release_flings_and_press_catches(s: GestureView)
    requires
        s.bar_drag is None,
    ensures
        gesture_step(s, GestureEvent::Released).1.launch_fling,
        !gesture_step(s, GestureEvent::Released).0.press_active,
        gesture_step(s, GestureEvent::Pressed { bar: None }).1.catch_all,
        !gesture_step(s, GestureEvent::Pressed { bar: None }).1.handled,
{
}

/// A bar works along its own axis: a press on a bar's track pages along that axis, and a press on its thumb takes hold of it so that the moves that follow drag that same bar.
pub proof fn lemma_a_bar_works_along_its_own_axis(s: GestureView, axis: Axis)
    ensures
        gesture_step(s, GestureEvent::Pressed { bar: Some(BarPress::Track(axis)) }).1.page == Some(axis),
        gesture_step(s, GestureEvent::Pressed { bar: Some(BarPress::Track(axis)) }).1.drag_bar is None,
        gesture_step(s, GestureEvent::Pressed { bar: Some(BarPress::Thumb(axis)) }).1.page is None,
        gesture_step(gesture_step(s, GestureEvent::Pressed { bar: Some(BarPress::Thumb(axis)) }).0, GestureEvent::Moved).1.drag_bar
            == Some(axis),
{
}

/// What no bar holds is left alone: a move with no bar held, the fingers leaving the touchpad, and any other event change no state; the first of them and the last do nothing, and the touchpad ending launches the fling.
pub proof fn lemma_other_events_change_no_state(s: GestureView)
    requires
        s.bar_drag is None,
    ensures
        gesture_step(s, GestureEvent::Moved) == (s, no_step()),
        gesture_step(s, GestureEvent::Other) == (s, no_step()),
        gesture_step(s, GestureEvent::ScrollEnded).0 == s,
        gesture_step(s, GestureEvent::ScrollEnded).1.launch_fling,
        !gesture_step(s, GestureEvent::ScrollEnded).1.handled,
{
}

} // verus!
