use ui_core::serial::Serial;

/// A pass asked for mid-pass runs after it, with the newest value: the runner turns to 3, never to 2.
#[test]
fn a_run_asked_for_mid_run_is_applied_after_it_with_the_newest_value() {
    let mut serial = Serial::new();
    let mut seen = Vec::new();
    let mut next = serial.request(1);
    while let Some(v) = next {
        seen.push(v);
        if v == 1 {
            assert_eq!(serial.request(2), None, "must not run inside the first pass");
            assert_eq!(serial.request(3), None, "must not run inside the first pass");
        }
        next = serial.advance();
    }
    assert_eq!(seen, vec![1, 3]);
    assert!(!serial.is_running());
}

#[test]
fn a_panicking_run_leaves_the_next_one_free_to_start() {
    let mut serial = Serial::new();
    assert_eq!(serial.request(1), Some(1));
    // The pass for 1 unwinds before it reports in.
    serial.abandon();
    assert_eq!(serial.request(2), Some(2));
    assert_eq!(serial.advance(), None);
}

#[test]
fn a_value_left_by_an_unwound_pass_is_dropped() {
    let mut serial = Serial::new();
    assert_eq!(serial.request(1), Some(1));
    assert_eq!(serial.request(2), None);
    serial.abandon();
    assert_eq!(serial.request(3), Some(3));
    assert_eq!(serial.advance(), None, "2 was older than 3");
}
