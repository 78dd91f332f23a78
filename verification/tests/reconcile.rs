use ui_core::row_keys::{ByteOrder, native_byte_order};
use ui_core::reconcile::identify_keys_in;
use ui_core::reconcile::{ReconcilePass, 
    ListPhase, OldRow, Row, departed_rows, disposed_rows, flow_mask, identify_keys, old_row_fates, place_departures,
    reuse_plan,
};

#[test]
fn a_persisting_key_reuses_its_row_and_a_new_one_is_built() {
    let old = vec![10, 20, 30];
    let keys = vec![30, 40, 10];
    assert_eq!(reuse_plan(&old, &keys), vec![Some(2), None, Some(0)]);
    assert_eq!(
        old_row_fates(&old, &keys),
        vec![OldRow::Reused, OldRow::Absent, OldRow::Reused]
    );
}

#[test]
fn a_key_carried_twice_reuses_one_row_only() {
    let old = vec![10, 10, 20];
    let keys = vec![10, 10];
    assert_eq!(reuse_plan(&old, &keys), vec![Some(0), None]);
    assert_eq!(
        old_row_fates(&old, &keys),
        vec![OldRow::Reused, OldRow::Repeat, OldRow::Absent]
    );
}

#[test]
fn repeated_keys_get_identities_of_their_own() {
    let ids = identify_keys(&vec![5, 6, 5, 5]);
    assert_eq!(ids[0], 5);
    assert_eq!(ids[1], 6);
    assert_ne!(ids[2], 5);
    assert_ne!(ids[3], ids[2]);
    assert_eq!(identify_keys(&vec![5, 6, 5, 5]), ids, "the same pass names the same identities");
}

#[test]
fn a_leaving_row_stays_next_to_the_row_it_followed() {
    // Old: a b c d; new: a d. b and c leave, both after a.
    let old = vec![1, 2, 3, 4];
    let keys = vec![1, 4];
    let placed = place_departures(&old, &keys, &vec![false, true, true, false]);
    assert_eq!(
        placed,
        vec![Row::New(0), Row::Leaving(1), Row::Leaving(2), Row::New(1)]
    );
}

#[test]
fn a_leaving_row_that_followed_nothing_goes_first() {
    let old = vec![1, 2, 3];
    let keys = vec![3, 2];
    let placed = place_departures(&old, &keys, &vec![true, false, false]);
    assert_eq!(placed, vec![Row::Leaving(0), Row::New(0), Row::New(1)]);
}

#[test]
fn a_row_without_an_exit_is_not_kept() {
    let old = vec![1, 2, 3];
    let keys = vec![1, 3];
    let placed = place_departures(&old, &keys, &vec![false, false, false]);
    assert_eq!(placed, vec![Row::New(0), Row::New(1)]);
}

#[test]
fn a_persisting_row_is_never_kept_as_leaving() {
    let old = vec![1, 2];
    let keys = vec![2, 1];
    let placed = place_departures(&old, &keys, &vec![true, true]);
    assert_eq!(placed, vec![Row::New(0), Row::New(1)]);
}

#[test]
fn finished_exits_are_found_by_key() {
    let gone = departed_rows(&vec![1, 2, 3], &vec![true, false, true], &vec![3, 2]);
    assert_eq!(gone, vec![false, false, true]);
}

#[test]
fn a_list_that_closes_gaps_takes_leaving_rows_out_of_flow() {
    assert_eq!(flow_mask(&vec![true, false], true), vec![false, true]);
    assert_eq!(flow_mask(&vec![true, false], false), vec![true, true]);
}

#[test]
fn exits_finished_mid_reconcile_are_handed_back_after_it() {
    let mut phase = ListPhase::new();
    assert!(phase.exits_finished(&vec![1]), "idle: drop now");
    phase.begin();
    assert!(!phase.exits_finished(&vec![2, 3]));
    assert!(!phase.exits_finished(&vec![4]));
    assert_eq!(phase.finish(), vec![2, 3, 4]);
    assert!(phase.exits_finished(&vec![5]));
    assert_eq!(phase.finish(), Vec::<u64>::new());
}

#[test]
fn a_row_without_an_exit_and_a_repeat_are_disposed() {
    // Old: 1 2 2 3; new: 1. Row 1 (key 2) has an exit, row 3 (key 3) has none, row 2 repeats key 2.
    let old = vec![1, 2, 2, 3];
    let keys = vec![1];
    let leaves = vec![true, true, true, false];
    assert_eq!(disposed_rows(&old, &keys, &leaves), vec![false, false, true, true]);
    assert_eq!(
        place_departures(&old, &keys, &leaves),
        vec![Row::New(0), Row::Leaving(1)]
    );
}

#[test]
fn a_kept_pass_commits_its_rows_and_turns_back_leaving_rows() {
    let mut pass = ReconcilePass::start(vec![1, 2, 3]);
    pass.reuse(2, true);
    pass.build(9, 90);
    pass.reuse(1, false);
    let end = pass.keep();
    assert_eq!(end.list, vec![2, 9, 1]);
    assert_eq!(end.come_back, vec![2]);
    assert!(end.freed.is_empty());
}

#[test]
fn an_abandoned_pass_leaves_the_committed_list_and_frees_what_it_built() {
    let mut pass = ReconcilePass::start(vec![1, 2, 3]);
    pass.reuse(2, true);
    pass.build(9, 90);
    pass.build(8, 80);
    let end = pass.abandon();
    assert_eq!(end.list, vec![1, 2, 3]);
    assert!(end.come_back.is_empty(), "a leaving row stays leaving");
    assert_eq!(end.freed, vec![90, 80]);
}

#[test]
fn the_same_pass_names_the_same_identities_in_one_byte_order() {
    for order in [ByteOrder::Little, ByteOrder::Big, native_byte_order()] {
        let ids = identify_keys_in(order, &vec![1, 1, 2]);
        assert_eq!(ids[0], 1);
        assert_eq!(ids[2], 2);
        assert_ne!(ids[1], 1);
        assert_eq!(identify_keys_in(order, &vec![1, 1, 2]), ids);
    }
    assert_eq!(identify_keys(&vec![1, 1, 2]), identify_keys_in(native_byte_order(), &vec![1, 1, 2]));
}

#[test]
fn a_pass_without_exits_commits_its_rows_reuses_by_id_and_disposes_the_rest() {
    let old = vec![10, 20, 30, 20];
    let keys = vec![30, 40, 10];
    let none = vec![false, false, false, false];
    assert_eq!(place_departures(&old, &keys, &none), vec![Row::New(0), Row::New(1), Row::New(2)]);
    assert_eq!(reuse_plan(&old, &keys), vec![Some(2), None, Some(0)]);
    assert_eq!(disposed_rows(&old, &keys, &none), vec![false, true, false, true]);
}
