//! How an event is routed to the overlay layer before the widget tree sees it: a live drag is resolved first, then Escape and Enter against the dismiss stack, and only then the overlays' own pointer routing.
//!
//! Escape and Enter dismiss or confirm only while nothing holds focus: a focused editor gets first refusal and blurs itself, so a second press closes the dialog. Dismissing first would make Escape unable to leave a field without tearing down its form.

use vstd::prelude::*;

use crate::keys::{Event, Key, NamedKey, PointerButton};

verus! {

/// Which live drag an event may cancel.
#[derive(Clone, Copy, Debug, PartialEq, Eq, Structural)]
pub enum DragCancel {
    /// A press of another button ends a drag that button did not start.
    ByButton(PointerButton),
    /// Escape ends whatever drag is live.
    Live,
    /// The event ends no drag.
    Nothing,
}

/// What an event asks of the dismiss stack once no drag took it.
#[derive(Clone, Copy, Debug, PartialEq, Eq, Structural)]
pub enum Dismissal {
    /// Close the frontmost dismissable surface.
    Dismiss,
    /// Confirm the frontmost dismissable surface.
    Confirm,
    /// Nothing.
    Nothing,
}

/// The named key an event presses, if it presses one.
pub open spec fn pressed_named(event: Event) -> Option<NamedKey> {
    match event {
        Event::KeyPressed { key: Key::Named(named), .. } => Some(named),
        _ => None,
    }
}

/// The drag an event may cancel: a pointer press by its button, Escape any live one.
pub open spec fn drag_cancel_spec(event: Event) -> DragCancel {
    match event {
        Event::PointerPressed { button } => DragCancel::ByButton(button),
        _ => if pressed_named(event) == Some(NamedKey::Escape) {
            DragCancel::Live
        } else {
            DragCancel::Nothing
        },
    }
}

/// Which drag `event` may cancel; the caller asks the drag registry, and an event that cancelled a drag is handled.
pub fn drag_cancel_for(event: &Event) -> (r: DragCancel)
    ensures
        r == drag_cancel_spec(*event),
{
    match event {
        Event::PointerPressed { button } => DragCancel::ByButton(*button),
        Event::KeyPressed { key: Key::Named(NamedKey::Escape), .. } => DragCancel::Live,
        _ => DragCancel::Nothing,
    }
}

/// What `event` asks of the dismiss stack, given whether anything holds focus: Escape dismisses and Enter confirms, and only while nothing is focused.
pub fn dismissal_for(event: &Event, focused: bool) -> (r: Dismissal)
    ensures
        r == (if focused {
            Dismissal::Nothing
        } else if pressed_named(*event) == Some(NamedKey::Escape) {
            Dismissal::Dismiss
        } else if pressed_named(*event) == Some(NamedKey::Enter) {
            Dismissal::Confirm
        } else {
            Dismissal::Nothing
        }),
{
    if focused {
        return Dismissal::Nothing;
    }
    match event {
        Event::KeyPressed { key: Key::Named(NamedKey::Escape), .. } => Dismissal::Dismiss,
        Event::KeyPressed { key: Key::Named(NamedKey::Enter), .. } => Dismissal::Confirm,
        _ => Dismissal::Nothing,
    }
}

/// A pointer press may end only a drag another button started, the press's own; Escape ends any live drag; nothing else ends one.
pub proof fn lemma_what_ends_a_drag(button: PointerButton, modifiers: crate::keys::ModifiersState, key: Key)
    ensures
        drag_cancel_spec(Event::PointerPressed { button }) == DragCancel::ByButton(button),
        drag_cancel_spec(Event::KeyPressed { key: Key::Named(NamedKey::Escape), modifiers }) == DragCancel::Live,
        key != Key::Named(NamedKey::Escape) ==> drag_cancel_spec(Event::KeyPressed { key, modifiers }) == DragCancel::Nothing,
        drag_cancel_spec(Event::PointerReleased { button }) == DragCancel::Nothing,
{
}

} // verus!
