use ui_core::PointerButton;
use ui_core::press::{Fire, PressGesture, PressHandlers};

fn tap_only() -> PressGesture {
    PressGesture::new(PressHandlers { on_press: true, on_long_press: false, on_alt_press: false })
}

#[test]
fn a_quick_tap_fires_on_release() {
    let mut g = tap_only();
    assert!(g.arm(PointerButton::Primary, true));
    assert_eq!(g.track_move(false, false), Fire::Nothing);
    assert_eq!(g.release(PointerButton::Primary, true, false), (true, Fire::Press));
}

#[test]
fn a_press_outside_does_not_arm() {
    let mut g = tap_only();
    assert!(!g.arm(PointerButton::Primary, false));
    assert_eq!(g.release(PointerButton::Primary, true, false), (false, Fire::Nothing));
}

#[test]
fn moving_past_the_slop_is_a_scroll_not_a_tap() {
    let mut g = tap_only();
    g.arm(PointerButton::Primary, true);
    assert_eq!(g.track_move(true, false), Fire::Nothing);
    assert_eq!(g.release(PointerButton::Primary, true, false), (false, Fire::Nothing));
}

#[test]
fn a_long_press_fires_after_the_threshold_not_on_a_quick_release() {
    let mut g = PressGesture::new(PressHandlers { on_press: true, on_long_press: true, on_alt_press: false });
    g.arm(PointerButton::Primary, true);
    assert_eq!(g.release(PointerButton::Primary, true, false), (true, Fire::Press));
    g.arm(PointerButton::Primary, true);
    assert_eq!(g.track_move(false, true), Fire::LongPress);
    assert_eq!(g.release(PointerButton::Primary, true, true), (false, Fire::Nothing), "the long press consumed it");
    g.arm(PointerButton::Primary, true);
    assert_eq!(g.release(PointerButton::Primary, false, true), (true, Fire::LongPress));
}

#[test]
fn another_button_completes_nothing() {
    let mut g = PressGesture::new(PressHandlers { on_press: true, on_long_press: false, on_alt_press: true });
    assert!(g.wants_alt());
    g.arm(PointerButton::Secondary, true);
    assert_eq!(g.release(PointerButton::Primary, true, false), (false, Fire::Nothing));
    assert_eq!(
        g.release(PointerButton::Secondary, true, false),
        (true, Fire::AltPress(PointerButton::Secondary))
    );
}

#[test]
fn a_box_without_an_alt_callback_lets_other_buttons_through() {
    let mut g = tap_only();
    assert!(!g.accepts(&PointerButton::Secondary));
    assert!(!g.arm(PointerButton::Secondary, true));
    assert!(g.activate());
    assert!(g.is_set());
    let none = PressGesture::new(PressHandlers { on_press: false, on_long_press: false, on_alt_press: false });
    assert!(!none.activate() && !none.is_set());
}

#[test]
fn a_cancelled_tap_fires_nothing() {
    let mut g = tap_only();
    g.arm(PointerButton::Primary, true);
    g.cancel();
    assert_eq!(g.release(PointerButton::Primary, true, false), (false, Fire::Nothing));
}
