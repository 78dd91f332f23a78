use ui_core::{ScrollRegions, unregister_scroll_region};

#[test]
fn registrations_get_fresh_ids_in_order() {
    let mut regions = ScrollRegions::new();
    let a = regions.register_scroll_region(10);
    let b = regions.register_scroll_region(20);
    assert_ne!(a, b);
    assert_eq!(regions.regions().as_slice(), &[(a, 10), (b, 20)]);
}

#[test]
fn withdrawing_removes_exactly_that_registration_and_twice_is_a_no_op() {
    let mut regions = ScrollRegions::new();
    let a = regions.register_scroll_region(10);
    let b = regions.register_scroll_region(20);
    let c = regions.register_scroll_region(10);
    unregister_scroll_region(&mut regions, b);
    assert_eq!(regions.regions().as_slice(), &[(a, 10), (c, 10)]);
    unregister_scroll_region(&mut regions, b);
    assert_eq!(regions.regions().as_slice(), &[(a, 10), (c, 10)]);
    unregister_scroll_region(&mut regions, a);
    assert_eq!(regions.regions().as_slice(), &[(c, 10)]);
}

#[test]
fn an_id_is_not_handed_out_twice() {
    let mut regions = ScrollRegions::new();
    let a = regions.register_scroll_region(1);
    unregister_scroll_region(&mut regions, a);
    let b = regions.register_scroll_region(1);
    assert_ne!(a, b);
}

#[test]
fn a_fresh_registry_has_room_for_another_region() {
    let regions = ScrollRegions::new();
    assert!(regions.has_room());
}
