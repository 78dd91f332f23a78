use ui_core::pointer::{is_covered, stops_search, topmost_hit};
use ui_core::{Event, PointerButton, PointerButtons, PointerState, pointer_buttons, reset_pointer};

#[test]
fn buttons_follow_presses_and_releases() {
    let mut p = PointerState::new();
    assert!(!pointer_buttons(&p).any());
    p.observe_pointer(&Event::PointerPressed { button: PointerButton::Secondary });
    let held = pointer_buttons(&p);
    assert!(held.secondary && !held.primary && held.any());
    assert!(held.holds(&PointerButton::Secondary));
    p.observe_pointer(&Event::PointerReleased { button: PointerButton::Secondary });
    assert!(!pointer_buttons(&p).any());
}

#[test]
fn losing_focus_lets_every_button_go() {
    let mut p = PointerState::new();
    p.observe_pointer(&Event::PointerPressed { button: PointerButton::Primary });
    p.observe_pointer(&Event::PointerPressed { button: PointerButton::Auxiliary });
    p.observe_pointer(&Event::Other);
    assert!(p.pointer_buttons().auxiliary);
    p.observe_pointer(&Event::FocusChanged { is_focused: false });
    assert_eq!(p.pointer_buttons(), PointerButtons::default());
}

#[test]
fn a_reset_drops_the_buttons() {
    let mut p = PointerState::new();
    p.observe_pointer(&Event::PointerPressed { button: PointerButton::Primary });
    reset_pointer(&mut p);
    assert!(!p.pointer_buttons().any());
}

#[test]
fn with_adds_a_button_to_the_ones_held() {
    let b = PointerButtons::default().with(&PointerButton::Primary).with(&PointerButton::Auxiliary);
    assert!(b.primary && b.auxiliary && !b.secondary);
}

#[test]
fn occlusion_nests_and_unwinds() {
    let mut p = PointerState::new();
    assert!(!p.pointer_occluded());
    let outer = p.occlude();
    assert!(!outer && p.pointer_occluded());
    let inner = p.occlude();
    assert!(inner && p.pointer_occluded());
    p.end_occlusion(inner);
    assert!(p.pointer_occluded(), "still inside the outer cover");
    p.end_occlusion(outer);
    assert!(!p.pointer_occluded());
}

#[test]
fn the_topmost_hit_is_the_last_painted() {
    assert_eq!(topmost_hit(&vec![true, false, true, false]), Some(2));
    assert_eq!(topmost_hit(&vec![false, false]), None);
    assert_eq!(topmost_hit(&vec![]), None);
}

#[test]
fn only_a_later_sibling_covers_an_earlier_one() {
    assert!(is_covered(Some(2), 0));
    assert!(!is_covered(Some(2), 2));
    assert!(!is_covered(Some(2), 3));
    assert!(!is_covered(None, 0));
}

#[test]
fn a_search_stops_where_the_event_was_taken_or_blocked() {
    assert!(stops_search(true, false, false, false));
    assert!(stops_search(false, true, true, true));
    assert!(!stops_search(false, true, false, true), "no rect never blocks");
    assert!(!stops_search(false, true, true, false), "a see-through child lets it by");
    assert!(!stops_search(false, false, true, true));
}
