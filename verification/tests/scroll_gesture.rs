use ui_core::reorder::Axis;
use ui_core::scroll_gesture::{BarPress, GestureEvent, ScrollGesture};

#[test]
fn a_press_on_the_thumb_takes_hold_and_a_move_drags_the_bar() {
    let mut g = ScrollGesture::new();
    let press = g.step(GestureEvent::Pressed { bar: Some(BarPress::Thumb(Axis::Vertical)) });
    assert!(press.handled);
    assert!(press.catch_all);
    assert!(g.holds_bar());
    let moved = g.step(GestureEvent::Moved);
    assert!(moved.handled);
    assert_eq!(moved.drag_bar, Some(Axis::Vertical));
    let released = g.step(GestureEvent::Released);
    assert!(released.handled);
    assert!(!released.launch_fling);
    assert!(!g.holds_bar());
    let after = g.step(GestureEvent::Moved);
    assert!(!after.handled);
    assert_eq!(after.drag_bar, None);
}

#[test]
fn a_press_on_the_track_pages_towards_it() {
    let mut g = ScrollGesture::new();
    let press = g.step(GestureEvent::Pressed { bar: Some(BarPress::Track(Axis::Horizontal)) });
    assert!(press.handled);
    assert_eq!(press.page, Some(Axis::Horizontal));
    assert!(!g.holds_bar());
}

#[test]
fn a_drag_past_the_slop_cancels_the_tap_once() {
    let mut g = ScrollGesture::new();
    let press = g.step(GestureEvent::Pressed { bar: None });
    assert!(!press.handled);
    assert!(press.reset_travel && press.clear_velocity && press.catch_all);
    let short = g.step(GestureEvent::Scrolled { past_slop: false });
    assert!(short.count_travel);
    assert!(!short.cancel_tap);
    assert!(short.catch_fling);
    let long = g.step(GestureEvent::Scrolled { past_slop: true });
    assert!(long.cancel_tap);
    let again = g.step(GestureEvent::Scrolled { past_slop: true });
    assert!(!again.cancel_tap);
    assert!(!again.count_travel);
    let release = g.step(GestureEvent::Released);
    assert!(release.launch_fling);
}

#[test]
fn a_wheel_scroll_cancels_nothing() {
    let mut g = ScrollGesture::new();
    let wheel = g.step(GestureEvent::Scrolled { past_slop: true });
    assert!(!wheel.cancel_tap);
    assert!(!wheel.count_travel);
    assert!(wheel.catch_fling);
    let ended = g.step(GestureEvent::ScrollEnded);
    assert!(ended.launch_fling);
    assert!(!g.step(GestureEvent::Other).handled);
}
