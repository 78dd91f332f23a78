use ui_core::{NamedOverlays, close_overlay, open_overlay};

#[test]
fn a_name_resolves_to_one_shared_signal() {
    let mut named = NamedOverlays::new();
    assert!(!named.state("confirm"));
    named.open("confirm");
    assert!(named.state("confirm"), "both handles are the same state");
    assert!(!named.state("other"), "a different name is independent");
}

/// Something opens the name before the widget for it exists, and the widget still comes up open.
#[test]
fn opening_a_name_before_its_overlay_is_built_still_opens_it() {
    let mut named = NamedOverlays::new();
    open_overlay(&mut named, "settings");
    assert!(
        named.state("settings"),
        "a name can be opened before anything is built for it"
    );
}

#[test]
fn open_and_close_drive_the_same_state() {
    let mut named = NamedOverlays::new();
    assert!(!named.is_open("panel"), "the overlay starts closed");
    open_overlay(&mut named, "panel");
    assert!(named.is_open("panel"), "open drives the state");
    close_overlay(&mut named, "panel");
    assert!(!named.is_open("panel"), "and close drives the same one back");
}

#[test]
fn clearing_forgets_every_name() {
    let mut named = NamedOverlays::new();
    named.open("a");
    named.open("b");
    named.clear();
    assert!(!named.is_open("a") && !named.is_open("b"));
}
