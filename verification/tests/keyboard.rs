use ui_core::{Event, Key, Keyboard, ModifiersState, NamedKey, end_keyboard_frame, reset_keyboard};

fn up() -> Key {
    Key::Named(NamedKey::ArrowUp)
}

fn shift() -> ModifiersState {
    ModifiersState {
        is_shift: true,
        ..ModifiersState::default()
    }
}

fn fresh() -> Keyboard {
    let mut keyboard = Keyboard::new();
    reset_keyboard(&mut keyboard);
    keyboard
}

#[test]
fn a_key_stays_held_until_it_is_released() {
    let mut k = fresh();
    assert!(!k.key_held(&up()), "nothing is held before any event");
    k.observe(&Event::KeyPressed {
        key: up(),
        modifiers: ModifiersState::default(),
    });
    assert!(k.key_held(&up()), "a press holds the key down");
    end_keyboard_frame(&mut k);
    assert!(k.key_held(&up()), "holding outlives the frame it began in");
    k.observe(&Event::KeyReleased {
        key: up(),
        modifiers: ModifiersState::default(),
    });
    assert!(!k.key_held(&up()), "and the release lets it go");
}

#[test]
fn a_press_answers_for_one_frame_only() {
    let mut k = fresh();
    k.observe(&Event::KeyPressed {
        key: up(),
        modifiers: ModifiersState::default(),
    });
    assert!(k.key_pressed(&up()), "the frame of the press answers yes");
    k.end_frame();
    assert!(!k.key_pressed(&up()), "and the next frame no longer does");
}

/// The OS repeats a held key as fresh presses. Counting them would fire a once-per-press action forty times a second for a user who simply never let go.
#[test]
fn a_repeated_key_is_not_a_new_press() {
    let mut k = fresh();
    k.observe(&Event::KeyPressed {
        key: up(),
        modifiers: ModifiersState::default(),
    });
    k.end_frame();
    k.observe(&Event::KeyPressed {
        key: up(),
        modifiers: ModifiersState::default(),
    });
    assert!(k.key_held(&up()), "an auto-repeat leaves the key held");
    assert!(!k.key_pressed(&up()), "the key never came back up");
}

/// `Shift` alone maps to no `Key`, so without its own event the state would still read whatever the last typed character carried.
#[test]
fn a_bare_modifier_is_visible_without_any_key_event() {
    let mut k = fresh();
    assert!(!k.modifiers().is_shift, "shift is not down to begin with");
    k.observe(&Event::ModifiersChanged { modifiers: shift() });
    assert!(
        k.modifiers().is_shift,
        "a modifier-only event still updates the state"
    );
}

/// Losing focus mid-chord is exactly where a reconstructed state goes wrong: the releases never come.
#[test]
fn losing_focus_forgets_what_was_held() {
    let mut k = fresh();
    k.observe(&Event::KeyPressed {
        key: up(),
        modifiers: shift(),
    });
    assert!(
        k.key_held(&up()) && k.modifiers().is_shift,
        "the key and the modifier are both live before focus goes"
    );
    k.observe(&Event::FocusChanged { is_focused: false });
    assert!(!k.key_held(&up()), "losing focus releases the key");
    assert!(!k.modifiers().is_shift, "and clears the modifier with it");
}

#[test]
fn keys_are_told_apart() {
    let mut k = fresh();
    k.observe(&Event::KeyPressed {
        key: Key::Char('a'),
        modifiers: ModifiersState::default(),
    });
    assert!(k.key_held(&Key::Char('a')));
    assert!(!k.key_held(&Key::Char('b')));
    assert!(!k.key_held(&Key::Named(NamedKey::F(1))));
    k.observe(&Event::KeyPressed {
        key: Key::Named(NamedKey::F(1)),
        modifiers: ModifiersState::default(),
    });
    assert!(k.key_held(&Key::Named(NamedKey::F(1))));
    assert!(!k.key_held(&Key::Named(NamedKey::F(2))));
}

#[test]
fn gaining_focus_and_other_events_change_nothing() {
    let mut k = fresh();
    k.observe(&Event::KeyPressed {
        key: up(),
        modifiers: shift(),
    });
    k.observe(&Event::FocusChanged { is_focused: true });
    k.observe(&Event::Other);
    assert!(k.key_held(&up()) && k.key_pressed(&up()) && k.modifiers().is_shift);
}

#[test]
fn a_reset_forgets_everything() {
    let mut k = fresh();
    k.observe(&Event::KeyPressed {
        key: up(),
        modifiers: shift(),
    });
    reset_keyboard(&mut k);
    assert!(!k.key_held(&up()) && !k.key_pressed(&up()) && !k.modifiers().is_shift);
}
