//! The keyboard as state rather than as events.
//!
//! Two questions come up constantly that the event stream cannot answer by itself: *was `Shift` down when that click happened?* and *is `ArrowUp` held right now?* Both are answered by keeping the state as the events go past, which is what [`Keyboard`] does. The modifier half is fed by [`Event::ModifiersChanged`], which the platform re-sends on focus changes, so it stays right across the alt-tab-mid-chord case that reconstruction gets wrong.

use vstd::prelude::*;

use rustc_hash::FxHashSet;

use crate::fx::{fx_set_contains, fx_set_insert, fx_set_remove};
use crate::keys::{Event, Key, ModifiersState, code_of, key_code, no_modifiers};

verus! {

/// What the keyboard state is, as mathematics: the modifiers, the keys held, and the keys that went down this frame, each key by its [`key_code`].
pub struct KeyboardView {
    pub modifiers: ModifiersState,
    pub held: Set<u64>,
    pub pressed: Set<u64>,
}

/// The state before any event, and after a reset.
pub open spec fn fresh_keyboard() -> KeyboardView {
    KeyboardView { modifiers: no_modifiers(), held: Set::empty(), pressed: Set::empty() }
}

/// What `event` does to the keyboard state `k`.
///
/// A press holds the key, and counts as a press of this frame only when the key was not already held, which separates a first press from an OS repeat. A release lets the key go. A window that loses focus never sends the releases for what was held, so losing focus forgets everything.
pub open spec fn observed(k: KeyboardView, event: Event) -> KeyboardView {
    match event {
        Event::ModifiersChanged { modifiers } => KeyboardView { modifiers, ..k },
        Event::KeyPressed { key, modifiers } => {
            let code = key_code(key);
            KeyboardView {
                modifiers,
                held: k.held.insert(code),
                pressed: if k.held.contains(code) {
                    k.pressed
                } else {
                    k.pressed.insert(code)
                },
            }
        },
        Event::KeyReleased { key, modifiers } => KeyboardView {
            modifiers,
            held: k.held.remove(key_code(key)),
            pressed: k.pressed,
        },
        Event::FocusChanged { is_focused } => if is_focused {
            k
        } else {
            fresh_keyboard()
        },
        _ => k,
    }
}

/// The state once a frame has ended: the presses of that frame forgotten, everything else kept.
pub open spec fn frame_ended(k: KeyboardView) -> KeyboardView {
    KeyboardView { pressed: Set::empty(), ..k }
}

/// The keyboard state one window keeps as its events go past.
pub struct Keyboard {
    modifiers: ModifiersState,
    held: FxHashSet<u64>,
    pressed: FxHashSet<u64>,
}

impl View for Keyboard {
    type V = KeyboardView;

    closed spec fn view(&self) -> KeyboardView {
        KeyboardView { modifiers: self.modifiers, held: self.held@, pressed: self.pressed@ }
    }
}

impl Keyboard {
    /// No key held, no modifier down.
    pub fn new() -> (r: Self)
        ensures
            r@ == fresh_keyboard(),
    {
        let r = Keyboard {
            modifiers: ModifiersState::default(),
            held: FxHashSet::default(),
            pressed: FxHashSet::default(),
        };
        assert(r@ == fresh_keyboard());
        r
    }

    /// Records what `event` says about the keyboard. The runner calls this for every event before dispatch.
    pub fn observe(&mut self, event: &Event)
        ensures
            final(self)@ == observed(old(self)@, *event),
    {
        match event {
            Event::ModifiersChanged { modifiers } => {
                self.modifiers = *modifiers;
            },
            Event::KeyPressed { key, modifiers } => {
                self.modifiers = *modifiers;
                let code = code_of(key);
                // `insert` reports whether the key was absent, which separates a first press from an OS repeat.
                if fx_set_insert(&mut self.held, code) {
                    fx_set_insert(&mut self.pressed, code);
                }
            },
            Event::KeyReleased { key, modifiers } => {
                self.modifiers = *modifiers;
                let code = code_of(key);
                fx_set_remove(&mut self.held, code);
            },
            Event::FocusChanged { is_focused } => {
                if !*is_focused {
                    self.held.clear();
                    self.pressed.clear();
                    self.modifiers = ModifiersState::default();
                }
            },
            _ => {},
        }
        assert(self@ == observed(old(self)@, *event));
    }

    /// Forgets the presses that belong to the frame just finished, so [`Keyboard::key_pressed`] answers for exactly one frame.
    pub fn end_frame(&mut self)
        ensures
            final(self)@ == frame_ended(old(self)@),
    {
        self.pressed.clear();
        assert(self@ == frame_ended(old(self)@));
    }

    /// The modifier keys held right now.
    pub fn modifiers(&self) -> (r: ModifiersState)
        ensures
            r == self@.modifiers,
    {
        self.modifiers
    }

    /// Whether `key` is down right now, however long it has been down.
    pub fn key_held(&self, key: &Key) -> (r: bool)
        ensures
            r == self@.held.contains(key_code(*key)),
    {
        fx_set_contains(&self.held, code_of(key))
    }

    /// Whether `key` went down during this frame. False for a key the OS is repeating.
    pub fn key_pressed(&self, key: &Key) -> (r: bool)
        ensures
            r == self@.pressed.contains(key_code(*key)),
    {
        fx_set_contains(&self.pressed, code_of(key))
    }

    /// Drops all keyboard state; parallels the other per-tree resets on teardown and hot reload.
    pub fn reset(&mut self)
        ensures
            final(self)@ == fresh_keyboard(),
    {
        self.held.clear();
        self.pressed.clear();
        self.modifiers = ModifiersState::default();
        assert(self@ == fresh_keyboard());
    }
}

/// Forgets the presses of the frame just finished; the runner calls this once per frame, after dispatch.
pub fn end_frame(keyboard: &mut Keyboard)
    ensures
        final(keyboard)@ == frame_ended(old(keyboard)@),
{
    keyboard.end_frame()
}

/// Drops all keyboard state.
pub fn reset(keyboard: &mut Keyboard)
    ensures
        final(keyboard)@ == fresh_keyboard(),
{
    keyboard.reset()
}

/// A press holds its key.
pub proof fn lemma_a_press_holds_the_key(k: KeyboardView, key: Key, modifiers: ModifiersState)
    ensures
        observed(k, Event::KeyPressed { key, modifiers }).held.contains(key_code(key)),
{
}

/// A key stays held until it is released or the window loses focus: no other event, and no frame ending, lets it go.
pub proof fn lemma_held_until_released(k: KeyboardView, key: Key, event: Event)
    requires
        k.held.contains(key_code(key)),
        !(event matches Event::KeyReleased { key: released, .. } && released == key),
        event != (Event::FocusChanged { is_focused: false }),
    ensures
        observed(k, event).held.contains(key_code(key)),
        frame_ended(k).held.contains(key_code(key)),
{
    if let Event::KeyReleased { key: released, .. } = event {
        crate::keys::lemma_key_code_injective(released, key);
    }
}

/// A first press answers for one frame only: it is a press of this frame, and no longer one once the frame ends.
pub proof fn lemma_a_press_answers_for_one_frame(k: KeyboardView, key: Key, modifiers: ModifiersState)
    requires
        !k.held.contains(key_code(key)),
    ensures
        observed(k, Event::KeyPressed { key, modifiers }).pressed.contains(key_code(key)),
        !frame_ended(observed(k, Event::KeyPressed { key, modifiers })).pressed.contains(
            key_code(key),
        ),
{
}

/// The OS repeating a held key is not a new press: the presses of the frame are exactly what they were.
pub proof fn lemma_a_repeat_is_not_a_press(k: KeyboardView, key: Key, modifiers: ModifiersState)
    requires
        k.held.contains(key_code(key)),
    ensures
        observed(k, Event::KeyPressed { key, modifiers }).pressed == k.pressed,
        observed(k, Event::KeyPressed { key, modifiers }).held == k.held,
{
    assert(k.held.insert(key_code(key)) =~= k.held);
}

/// Losing focus forgets what was held, what was pressed, and the modifiers.
pub proof fn lemma_losing_focus_forgets(k: KeyboardView)
    ensures
        observed(k, Event::FocusChanged { is_focused: false }) == fresh_keyboard(),
{
}

/// A modifier-only event still updates the modifiers, with no key event to carry them.
pub proof fn lemma_a_bare_modifier_is_seen(k: KeyboardView, modifiers: ModifiersState)
    ensures
        observed(k, Event::ModifiersChanged { modifiers }).modifiers == modifiers,
{
}

/// A release lets its key go and nothing else: the presses of the frame stay as they were, so a key pressed and released within one frame still answers as pressed until the frame ends.
pub proof fn lemma_a_release_keeps_the_frames_presses(k: KeyboardView, key: Key, modifiers: ModifiersState, up: ModifiersState)
    ensures
        observed(k, Event::KeyReleased { key, modifiers }).pressed == k.pressed,
        !observed(k, Event::KeyReleased { key, modifiers }).held.contains(key_code(key)),
        !k.held.contains(key_code(key)) ==> observed(
            observed(k, Event::KeyPressed { key, modifiers: up }),
            Event::KeyReleased { key, modifiers },
        ).pressed.contains(key_code(key)),
{
}

} // verus!
