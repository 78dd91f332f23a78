//! A press ("tap") gesture that any container can opt into, as a state machine.
//!
//! The callback fires on release, not press, and is cancelled once the pointer travels past the tap slop, so a scroll gesture that begins on the widget never triggers it. A press held past the long-press threshold fires the long press instead, on the next pointer event after the threshold, and the release that follows fires nothing. A release by a different button than the one that armed the gesture completes nothing.
//!
//! Where the press landed and when are the caller's: it answers, per event, whether the pointer is inside the box, whether it has travelled past the slop, and whether the press has been held past the threshold. This decides what those answers mean.

use vstd::prelude::*;

use crate::keys::PointerButton;

verus! {

/// Which callbacks a box gave its press gesture.
#[derive(Clone, Copy, Debug, PartialEq, Eq, Structural)]
pub struct PressHandlers {
    pub on_press: bool,
    pub on_long_press: bool,
    pub on_alt_press: bool,
}

/// Which callback a pointer event completes, if any.
#[derive(Clone, Copy, Debug, PartialEq, Eq, Structural)]
pub enum Fire {
    Nothing,
    /// The tap: a primary press released inside the box.
    Press,
    /// A primary press held past the threshold.
    LongPress,
    /// A press of another button released inside the box, with that button.
    AltPress(PointerButton),
}

/// The gesture as mathematics: its callbacks, whether a tap is still pending (the pointer has not travelled past the slop since the press), whether the press is being timed, and which button armed it.
#[derive(Clone, Copy, Debug, PartialEq, Eq, Structural)]
pub struct PressView {
    pub handlers: PressHandlers,
    pub pending: bool,
    pub timing: bool,
    pub armed: Option<PointerButton>,
}

/// Whether `button` has a callback to complete: the primary one when a tap or a long press is wanted, any other when an alternate press is.
pub open spec fn accepts_spec(h: PressHandlers, button: PointerButton) -> bool {
    match button {
        PointerButton::Primary => h.on_press || h.on_long_press,
        _ => h.on_alt_press,
    }
}

/// Nothing pending, nothing armed, the same callbacks.
pub open spec fn disarmed(g: PressView) -> PressView {
    PressView { pending: false, timing: false, armed: None, ..g }
}

/// Polling the long press with `held_long` saying whether the press has been held past the threshold: a timed primary press held long disarms and fires the long press; anything else is left as it is.
pub open spec fn long_press_checked(g: PressView, held_long: bool) -> (PressView, bool) {
    if g.armed == Some(PointerButton::Primary) && g.timing && held_long {
        (disarmed(g), true)
    } else {
        (g, false)
    }
}

/// What a press of `button` does: inside the box, with a callback for that button, it arms the gesture, which consumes the press.
pub open spec fn armed_by(g: PressView, button: PointerButton, inside: bool) -> (PressView, bool) {
    if accepts_spec(g.handlers, button) && inside {
        (PressView { pending: true, timing: true, armed: Some(button), ..g }, true)
    } else {
        (g, false)
    }
}

/// What a move does: past the slop the gesture is a scroll or a drag, not a tap, and is dropped; short of it, the long press is polled.
pub open spec fn moved(g: PressView, past_slop: bool, held_long: bool) -> (PressView, Fire) {
    if !g.pending {
        (g, Fire::Nothing)
    } else if past_slop {
        (disarmed(g), Fire::Nothing)
    } else {
        let (after, long) = long_press_checked(g, held_long);
        (after, if long && g.handlers.on_long_press { Fire::LongPress } else { Fire::Nothing })
    }
}

/// What a release of `button` does, answering whether the event was consumed and what it fires.
pub open spec fn released(g: PressView, button: PointerButton, inside: bool, held_long: bool) -> (PressView, bool, Fire) {
    if g.armed != Some(button) {
        (g, false, Fire::Nothing)
    } else {
        let (after, long) = long_press_checked(g, held_long);
        if long {
            (after, true, if g.handlers.on_long_press { Fire::LongPress } else { Fire::Nothing })
        } else if g.pending && inside {
            (
                disarmed(g),
                true,
                match button {
                    PointerButton::Primary => if g.handlers.on_press { Fire::Press } else { Fire::Nothing },
                    _ => if g.handlers.on_alt_press { Fire::AltPress(button) } else { Fire::Nothing },
                },
            )
        } else {
            (disarmed(g), false, Fire::Nothing)
        }
    }
}

/// A box's press gesture.
pub struct PressGesture {
    handlers: PressHandlers,
    pending: bool,
    timing: bool,
    armed: Option<PointerButton>,
}

impl View for PressGesture {
    type V = PressView;

    closed spec fn view(&self) -> PressView {
        PressView { handlers: self.handlers, pending: self.pending, timing: self.timing, armed: self.armed }
    }
}

impl PressGesture {
    /// A gesture with `handlers`, nothing armed.
    pub fn new(handlers: PressHandlers) -> (r: Self)
        ensures
            r@ == (PressView { handlers, pending: false, timing: false, armed: None }),
    {
        PressGesture { handlers, pending: false, timing: false, armed: None }
    }

    /// Gives the gesture `handlers`, leaving what is armed as it is.
    pub fn set_handlers(&mut self, handlers: PressHandlers)
        ensures
            final(self)@ == (PressView { handlers, ..old(self)@ }),
    {
        self.handlers = handlers;
    }

    /// Whether any callback is set.
    pub fn is_set(&self) -> (r: bool)
        ensures
            r == (self@.handlers.on_press || self@.handlers.on_long_press || self@.handlers.on_alt_press),
    {
        self.handlers.on_press || self.handlers.on_long_press || self.handlers.on_alt_press
    }

    /// Whether this gesture wants buttons beyond the primary one. A container asks before consuming a non-primary press, so one keeps falling through to the widgets behind unless something asked for it.
    pub fn wants_alt(&self) -> (r: bool)
        ensures
            r == self@.handlers.on_alt_press,
    {
        self.handlers.on_alt_press
    }

    /// Whether `button` has a callback to complete.
    pub fn accepts(&self, button: &PointerButton) -> (r: bool)
        ensures
            r == accepts_spec(self@.handlers, *button),
    {
        match button {
            PointerButton::Primary => self.handlers.on_press || self.handlers.on_long_press,
            _ => self.handlers.on_alt_press,
        }
    }

    /// Fires the press without a pointer, for a control activated from the keyboard. Reports whether there was anything to fire, so a key that activated nothing is left for whoever else wants it.
    pub fn activate(&self) -> (r: bool)
        ensures
            r == self@.handlers.on_press,
    {
        self.handlers.on_press
    }

    fn check_long_press(&mut self, held_long: bool) -> (long: bool)
        ensures
            (final(self)@, long) == long_press_checked(old(self)@, held_long),
    {
        if self.armed == Some(PointerButton::Primary) && self.timing && held_long {
            self.cancel();
            return true;
        }
        false
    }

    /// A move while a tap is pending: past the slop the tap is dropped; short of it the long press is polled. Answers what fires.
    pub fn track_move(&mut self, past_slop: bool, held_long: bool) -> (fire: Fire)
        ensures
            (final(self)@, fire) == moved(old(self)@, past_slop, held_long),
    {
        if !self.pending {
            return Fire::Nothing;
        }
        if past_slop {
            self.cancel();
            return Fire::Nothing;
        }
        let long = self.check_long_press(held_long);
        if long && self.handlers.on_long_press {
            Fire::LongPress
        } else {
            Fire::Nothing
        }
    }

    /// Arms a candidate tap if a press this gesture accepts lands inside the box. Answers whether it armed, which consumes the press.
    pub fn arm(&mut self, button: PointerButton, inside: bool) -> (handled: bool)
        ensures
            (final(self)@, handled) == armed_by(old(self)@, button, inside),
    {
        if self.accepts(&button) && inside {
            self.pending = true;
            self.timing = true;
            self.armed = Some(button);
            return true;
        }
        false
    }

    /// Completes the tap: a release by the button that armed it, still inside the box with the tap pending, fires the matching callback, unless the hold already crossed the long-press threshold, in which case the long press consumes the gesture. Answers whether the release was consumed, and what fires.
    pub fn release(&mut self, button: PointerButton, inside: bool, held_long: bool) -> (r: (bool, Fire))
        ensures
            (final(self)@, r.0, r.1) == released(old(self)@, button, inside, held_long),
    {
        if self.armed != Some(button) {
            return (false, Fire::Nothing);
        }
        let long = self.check_long_press(held_long);
        if long {
            let fire = if self.handlers.on_long_press {
                Fire::LongPress
            } else {
                Fire::Nothing
            };
            return (true, fire);
        }
        let was_pending = self.pending;
        self.cancel();
        if was_pending && inside {
            let fire = match button {
                PointerButton::Primary => if self.handlers.on_press {
                    Fire::Press
                } else {
                    Fire::Nothing
                },
                _ => if self.handlers.on_alt_press {
                    Fire::AltPress(button)
                } else {
                    Fire::Nothing
                },
            };
            return (true, fire);
        }
        (false, Fire::Nothing)
    }

    /// Drops any pending tap: a child consumed the press, or the pointer left.
    pub fn cancel(&mut self)
        ensures
            final(self)@ == disarmed(old(self)@),
    {
        self.pending = false;
        self.timing = false;
        self.armed = None;
    }
}

/// A quick tap: a primary press inside a box with a tap callback, released inside it before the threshold with the pointer still within the slop, fires the tap and nothing else.
pub proof fn lemma_a_quick_tap_fires_the_press(g: PressView)
    requires
        g.handlers.on_press,
    ensures
        ({
            let (armed, handled) = armed_by(g, PointerButton::Primary, true);
            let (after, consumed, fire) = released(armed, PointerButton::Primary, true, false);
            &&& handled
            &&& consumed
            &&& fire == Fire::Press
            &&& after == disarmed(g)
        }),
{
}

/// A long press consumes the gesture: once held past the threshold, the release fires the long press, never the tap.
pub proof fn lemma_a_long_press_consumes_the_release(g: PressView, inside: bool)
    requires
        g.handlers.on_press,
        g.handlers.on_long_press,
    ensures
        ({
            let (armed, _) = armed_by(g, PointerButton::Primary, true);
            let (_, consumed, fire) = released(armed, PointerButton::Primary, inside, true);
            consumed && fire == Fire::LongPress
        }),
{
}

/// A stroke past the slop is a scroll, not a tap: the release after it fires nothing and is not consumed.
pub proof fn lemma_a_scroll_is_not_a_tap(g: PressView, button: PointerButton, inside: bool, held_long: bool)
    requires
        accepts_spec(g.handlers, button),
    ensures
        ({
            let (armed, _) = armed_by(g, button, true);
            let (scrolled, fired) = moved(armed, true, held_long);
            let (_, consumed, fire) = released(scrolled, button, inside, held_long);
            &&& fired == Fire::Nothing
            &&& !consumed
            &&& fire == Fire::Nothing
        }),
{
}

/// A release by another button than the one that armed the gesture completes nothing and changes nothing.
pub proof fn lemma_another_button_completes_nothing(g: PressView, button: PointerButton, inside: bool, held_long: bool)
    requires
        g.armed != Some(button),
    ensures
        released(g, button, inside, held_long) == (g, false, Fire::Nothing),
{
}

/// After a cancel nothing is armed, so no release fires anything.
pub proof fn lemma_a_cancelled_tap_fires_nothing(g: PressView, button: PointerButton, inside: bool, held_long: bool)
    ensures
        released(disarmed(g), button, inside, held_long).2 == Fire::Nothing,
        !released(disarmed(g), button, inside, held_long).1,
{
}

/// A release with the pointer outside the box completes nothing: unless the long press already fired, it disarms the gesture, fires nothing, and is not consumed, whatever the button and whatever the gesture was waiting for.
pub proof fn lemma_a_release_outside_completes_nothing(g: PressView, button: PointerButton, held_long: bool)
    requires
        g.armed == Some(button),
        !long_press_checked(g, held_long).1,
    ensures
        released(g, button, false, held_long).0 == (PressView { pending: false, timing: false, armed: None, ..g }),
        !released(g, button, false, held_long).1,
        released(g, button, false, held_long).2 == Fire::Nothing,
{
}

/// A tap is completed only by a release inside the box: whatever a release fires other than the long press, it fired with the pointer inside, the tap still pending, and the release by the button that armed it; and a tap fires the callback of that button.
pub proof fn lemma_only_a_release_inside_fires_the_tap(g: PressView, button: PointerButton, inside: bool, held_long: bool)
    ensures
        (released(g, button, inside, held_long).2 == Fire::Press) ==> inside && g.pending && g.armed == Some(button)
            && button == PointerButton::Primary && g.handlers.on_press,
        released(g, button, inside, held_long).2 matches Fire::AltPress(b) ==> inside && g.pending && g.armed == Some(button)
            && b == button && button != PointerButton::Primary && g.handlers.on_alt_press,
{
}

} // verus!
