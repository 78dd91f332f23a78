use ui_core::Slots;

#[test]
fn slots_drain_in_call_site_order_and_only_once() {
    let mut slots = Slots::new();
    assert!(slots.is_empty());
    slots.push(None, 1);
    slots.push(Some("header"), 2);
    slots.push(None, 3);
    slots.extend_default(vec![4, 5]);
    slots.push(Some("footer"), 6);
    slots.push(Some("header"), 7);
    assert_eq!(slots.len(), 7);
    assert_eq!(slots.take("header"), vec![2, 7]);
    assert_eq!(slots.take("header"), Vec::<i32>::new(), "draining is one-shot");
    assert_eq!(slots.take_default(), vec![1, 3, 4, 5]);
    assert_eq!(slots.len(), 1);
    assert_eq!(slots.take("footer"), vec![6]);
    assert!(slots.is_empty());
}

#[test]
fn an_unknown_slot_yields_nothing_and_takes_nothing() {
    let mut slots = Slots::new();
    slots.push(Some("a"), 'x');
    assert_eq!(slots.take("b"), Vec::<char>::new());
    assert_eq!(slots.len(), 1);
}
