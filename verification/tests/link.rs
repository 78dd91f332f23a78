use ui_core::link::wants_beside;
use ui_core::{Anchors, ModifiersState, register_anchor, reveal_anchor};

#[test]
fn an_unregistered_anchor_reveals_nothing() {
    let anchors = Anchors::new();
    assert_eq!(reveal_anchor(&anchors, "intro"), None);
}

#[test]
fn a_registered_anchor_answers_until_withdrawn() {
    let mut anchors = Anchors::new();
    let reg = register_anchor(&mut anchors, "intro");
    assert_eq!(reveal_anchor(&anchors, "intro"), Some(reg.token_of()));
    assert_eq!(reveal_anchor(&anchors, "outro"), None);
    anchors.withdraw(reg);
    assert_eq!(reveal_anchor(&anchors, "intro"), None);
}

#[test]
fn a_later_registration_replaces_an_earlier_one_and_survives_its_withdrawal() {
    let mut anchors = Anchors::new();
    let first = anchors.register_anchor("intro");
    let second = anchors.register_anchor("intro");
    let second_token = second.token_of();
    assert_ne!(first.token_of(), second_token);
    assert_eq!(anchors.reveal_anchor("intro"), Some(second_token));
    anchors.withdraw(first);
    assert_eq!(anchors.reveal_anchor("intro"), Some(second_token));
    anchors.withdraw(second);
    assert_eq!(anchors.reveal_anchor("intro"), None);
}

#[test]
fn ctrl_cmd_or_shift_ask_for_a_view_beside() {
    let none = ModifiersState::default();
    assert!(!wants_beside(none));
    assert!(wants_beside(ModifiersState { is_ctrl: true, ..none }));
    assert!(wants_beside(ModifiersState { is_meta: true, ..none }));
    assert!(wants_beside(ModifiersState { is_shift: true, ..none }));
    assert!(!wants_beside(ModifiersState { is_alt: true, ..none }));
}

#[test]
fn a_box_is_a_link_until_it_is_unregistered() {
    let mut links = ui_core::link::LinkTable::new();
    assert_eq!(links.activate_box(7), None, "a box that is no link has nowhere to go");
    links.register_link(7, 70);
    links.register_link(8, 80);
    assert_eq!(links.activate_box(7), Some(70));
    links.register_link(7, 71);
    assert_eq!(links.activate_box(7), Some(71), "a later reader replaces the earlier");
    links.unregister_link(7);
    assert_eq!(links.activate_box(7), None);
    assert_eq!(links.activate_box(8), Some(80));
}

#[test]
fn an_anchor_is_revealed_only_while_something_answers_to_it() {
    let mut anchors = Anchors::new();
    assert_eq!(reveal_anchor(&anchors, "contact"), None, "no box answers to it yet");
    let registration = register_anchor(&mut anchors, "contact");
    let token = registration.token_of();
    assert_eq!(reveal_anchor(&anchors, "contact"), Some(token));
    anchors.withdraw(registration);
    assert_eq!(reveal_anchor(&anchors, "contact"), None);
}

#[test]
fn a_box_that_is_gone_has_no_link_to_activate() {
    let mut links = ui_core::link::LinkTable::new();
    let id: u64 = 42;
    links.register_link(id, 1);
    links.unregister_link(id);
    assert_eq!(links.activate_box(id), None);
}

#[test]
fn a_fresh_registry_has_room_for_another_anchor() {
    let anchors = Anchors::new();
    assert!(anchors.has_room());
}
