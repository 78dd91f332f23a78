//! Pointer state and the decisions of dispatch: which buttons are down, what is occluded, and which child a pointer event is over.

use vstd::prelude::*;

use crate::keys::{Event, PointerButton};

verus! {

/// Which pointer buttons are held right now.
///
/// The pointer's half of the keyboard's modifiers, and there for the same reason: a gesture that behaves one way per button has to ask, and the callbacks it is written against report where the pointer is, not what started it.
#[derive(Clone, Copy, Debug, PartialEq, Eq, Structural)]
pub struct PointerButtons {
    pub primary: bool,
    pub secondary: bool,
    pub auxiliary: bool,
}

/// No button held.
pub open spec fn no_buttons() -> PointerButtons {
    PointerButtons { primary: false, secondary: false, auxiliary: false }
}

/// Whether `buttons` holds `button`.
pub open spec fn holds_spec(buttons: PointerButtons, button: PointerButton) -> bool {
    match button {
        PointerButton::Primary => buttons.primary,
        PointerButton::Secondary => buttons.secondary,
        PointerButton::Auxiliary => buttons.auxiliary,
    }
}

/// `buttons` with `button` set to `down`, the other two untouched.
pub open spec fn with_button(buttons: PointerButtons, button: PointerButton, down: bool) -> PointerButtons {
    match button {
        PointerButton::Primary => PointerButtons { primary: down, ..buttons },
        PointerButton::Secondary => PointerButtons { secondary: down, ..buttons },
        PointerButton::Auxiliary => PointerButtons { auxiliary: down, ..buttons },
    }
}

impl Default for PointerButtons {
    fn default() -> (r: Self)
        ensures
            r == no_buttons(),
    {
        PointerButtons { primary: false, secondary: false, auxiliary: false }
    }
}

impl PointerButtons {
    /// Whether any button at all is down.
    pub fn any(self) -> (r: bool)
        ensures
            r == (self.primary || self.secondary || self.auxiliary),
    {
        self.primary || self.secondary || self.auxiliary
    }

    /// Whether `button` is down.
    pub fn holds(self, button: &PointerButton) -> (r: bool)
        ensures
            r == holds_spec(self, *button),
    {
        match button {
            PointerButton::Primary => self.primary,
            PointerButton::Secondary => self.secondary,
            PointerButton::Auxiliary => self.auxiliary,
        }
    }

    /// The same buttons with `button` down as well.
    pub fn with(self, button: &PointerButton) -> (r: Self)
        ensures
            r == with_button(self, *button, true),
    {
        self.set(button, true)
    }

    fn set(self, button: &PointerButton, down: bool) -> (r: Self)
        ensures
            r == with_button(self, *button, down),
    {
        let mut held = self;
        match button {
            PointerButton::Primary => held.primary = down,
            PointerButton::Secondary => held.secondary = down,
            PointerButton::Auxiliary => held.auxiliary = down,
        }
        held
    }
}

/// What `event` does to the buttons held: a press sets its button, a release clears it, and a window losing focus, which never sends the releases for what was down, clears them all. Crossing the window's border lifts nothing.
pub open spec fn buttons_after(buttons: PointerButtons, event: Event) -> PointerButtons {
    match event {
        Event::PointerPressed { button } => with_button(buttons, button, true),
        Event::PointerReleased { button } => with_button(buttons, button, false),
        Event::FocusChanged { is_focused } => if is_focused {
            buttons
        } else {
            no_buttons()
        },
        _ => buttons,
    }
}

/// The pointer state one window keeps: the buttons held, and whether the move being dispatched right now is going into a subtree something else is drawn over.
pub struct PointerState {
    buttons: PointerButtons,
    occluded: bool,
}

impl PointerState {
    /// Nothing held, nothing occluded.
    pub fn new() -> (r: Self)
        ensures
            r.buttons() == no_buttons(),
            !r.occluded(),
    {
        PointerState { buttons: PointerButtons::default(), occluded: false }
    }

    /// The buttons held, as mathematics.
    pub closed spec fn buttons(&self) -> PointerButtons {
        self.buttons
    }

    /// The occlusion mark, as mathematics.
    pub closed spec fn occluded(&self) -> bool {
        self.occluded
    }

    /// Records what `event` says about the buttons. The runner calls this for every event before dispatch, so a handler running on this very event already sees the state it establishes.
    pub fn observe_pointer(&mut self, event: &Event)
        ensures
            final(self).buttons() == buttons_after(old(self).buttons(), *event),
            final(self).occluded() == old(self).occluded(),
    {
        match event {
            Event::PointerPressed { button } => {
                self.buttons = self.buttons.set(button, true);
            },
            Event::PointerReleased { button } => {
                self.buttons = self.buttons.set(button, false);
            },
            Event::FocusChanged { is_focused } => {
                if !*is_focused {
                    self.buttons = PointerButtons::default();
                }
            },
            _ => {},
        }
    }

    /// The pointer buttons held right now.
    pub fn pointer_buttons(&self) -> (r: PointerButtons)
        ensures
            r == self.buttons(),
    {
        self.buttons
    }

    /// Drops the button state; parallels the other per-tree resets on teardown and hot reload.
    pub fn reset_pointer(&mut self)
        ensures
            final(self).buttons() == no_buttons(),
            final(self).occluded() == old(self).occluded(),
    {
        self.buttons = PointerButtons::default();
    }

    /// Whether the move being dispatched right now landed on something drawn in front of the widget receiving it.
    pub fn pointer_occluded(&self) -> (r: bool)
        ensures
            r == self.occluded(),
    {
        self.occluded
    }

    /// Marks everything dispatched until [`PointerState::end_occlusion`] as covered, answering the mark as it was. Set-only on the way down: a subtree inside something covered is covered too.
    pub fn occlude(&mut self) -> (previous: bool)
        ensures
            previous == old(self).occluded(),
            final(self).occluded(),
            final(self).buttons() == old(self).buttons(),
    {
        let previous = self.occluded;
        self.occluded = true;
        previous
    }

    /// Puts back the mark [`PointerState::occlude`] answered, once the covered subtree has had the event.
    pub fn end_occlusion(&mut self, previous: bool)
        ensures
            final(self).occluded() == previous,
            final(self).buttons() == old(self).buttons(),
    {
        self.occluded = previous;
    }
}

/// Drops the button state of `pointer`.
pub fn reset_pointer(pointer: &mut PointerState)
    ensures
        final(pointer).buttons() == no_buttons(),
        final(pointer).occluded() == old(pointer).occluded(),
{
    pointer.reset_pointer()
}

/// The pointer buttons `pointer` holds right now.
pub fn pointer_buttons(pointer: &PointerState) -> (r: PointerButtons)
    ensures
        r == pointer.buttons(),
{
    pointer.pointer_buttons()
}

/// The index of the last `true` in `hits` before `end`, if any.
pub open spec fn last_hit(hits: Seq<bool>, end: int) -> Option<int>
    decreases end,
{
    if end <= 0 {
        None
    } else if hits[end - 1] {
        Some(end - 1)
    } else {
        last_hit(hits, end - 1)
    }
}

/// The child the pointer is over: the topmost (last painted) of those whose rect holds the point and which stop the pointer, given for each child in paint order whether it does both.
pub fn topmost_hit(hits: &Vec<bool>) -> (r: Option<usize>)
    ensures
        r == (match last_hit(hits@, hits@.len() as int) {
            Some(i) => Some(i as usize),
            None => None::<usize>,
        }),
        r matches Some(i) ==> i < hits@.len() && hits@[i as int],
        r matches Some(i) ==> forall|j: int| i < j < hits@.len() ==> !hits@[j],
        r is None ==> forall|j: int| 0 <= j < hits@.len() ==> !hits@[j],
{
    let mut end = hits.len();
    while end > 0
        invariant
            end <= hits@.len(),
            last_hit(hits@, hits@.len() as int) == last_hit(hits@, end as int),
            forall|j: int| end <= j < hits@.len() ==> !hits@[j],
        decreases end,
    {
        if hits[end - 1] {
            return Some(end - 1);
        }
        end = end - 1;
    }
    None
}

/// Whether child `index` is drawn under the child the pointer is `over`. Covered means drawn over, so only a later sibling occludes an earlier one.
pub fn is_covered(over: Option<usize>, index: usize) -> (r: bool)
    ensures
        r == (over matches Some(top) && top > index),
{
    match over {
        Some(top) => top > index,
        None => false,
    }
}

/// Whether a press or a wheel turn stops at this child, searching from the top: it stops where the child took the event, or where the point is inside a laid-out child that stops the pointer. A child with no laid-out rect is offered the event but never blocks.
pub fn stops_search(handled: bool, inside: bool, has_rect: bool, opaque: bool) -> (r: bool)
    ensures
        r == (handled || (inside && has_rect && opaque)),
{
    handled || (inside && has_rect && opaque)
}

/// A press followed by the release of the same button leaves that button up, and the others as they were.
pub proof fn lemma_release_undoes_press(buttons: PointerButtons, button: PointerButton)
    requires
        !holds_spec(buttons, button),
    ensures
        buttons_after(buttons_after(buttons, Event::PointerPressed { button }), Event::PointerReleased { button }) == buttons,
{
}

/// Losing focus releases every button, whatever was held.
pub proof fn lemma_losing_focus_releases_all(buttons: PointerButtons)
    ensures
        buttons_after(buttons, Event::FocusChanged { is_focused: false }) == no_buttons(),
{
}

/// A press holds its button and a release lets it go, and neither touches the other buttons.
pub proof fn lemma_a_button_event_moves_only_its_button(buttons: PointerButtons, button: PointerButton, other: PointerButton)
    requires
        other != button,
    ensures
        holds_spec(buttons_after(buttons, Event::PointerPressed { button }), button),
        !holds_spec(buttons_after(buttons, Event::PointerReleased { button }), button),
        holds_spec(buttons_after(buttons, Event::PointerPressed { button }), other) == holds_spec(buttons, other),
        holds_spec(buttons_after(buttons, Event::PointerReleased { button }), other) == holds_spec(buttons, other),
{
}

} // verus!
