use ui_core::apply_move;

/// The off-by-one both hand-rolled versions had to solve: a slot counted before the item is lifted out.
#[test]
fn moving_rightwards_accounts_for_the_hole_left_behind() {
    let mut items = vec!['a', 'b', 'c', 'd'];
    assert!(
        apply_move(&mut items, 0, 3),
        "moving an item rightwards is a real move"
    );
    assert_eq!(items, vec!['b', 'c', 'a', 'd']);
}

#[test]
fn moving_leftwards_lands_on_the_slot_as_counted() {
    let mut items = vec!['a', 'b', 'c', 'd'];
    assert!(apply_move(&mut items, 3, 1), "and so is moving leftwards");
    assert_eq!(items, vec!['a', 'd', 'b', 'c']);
}

#[test]
fn dropping_where_it_already_is_moves_nothing() {
    let mut items = vec!['a', 'b', 'c'];
    assert!(
        !apply_move(&mut items, 1, 1),
        "dropping an item on its own slot moves nothing"
    );
    assert!(
        !apply_move(&mut items, 1, 2),
        "and neither does dropping it just past itself"
    );
    assert_eq!(items, vec!['a', 'b', 'c']);
}

#[test]
fn an_out_of_range_source_is_refused_rather_than_panicking() {
    let mut items = vec!['a'];
    assert!(
        !apply_move(&mut items, 5, 0),
        "an out-of-range source is refused rather than panicking"
    );
    assert_eq!(items, vec!['a']);
}

#[test]
fn a_slot_past_the_end_drops_at_the_end() {
    let mut items = vec![1, 2, 3];
    assert!(apply_move(&mut items, 0, 99));
    assert_eq!(items, vec![2, 3, 1]);
}

#[test]
fn moving_back_restores_the_list() {
    let mut items = vec!['a', 'b', 'c', 'd', 'e'];
    assert!(apply_move(&mut items, 1, 4));
    assert_eq!(items, vec!['a', 'c', 'd', 'b', 'e']);
    // The item now sits at 3 and came from before it, so slot 1 puts it back.
    assert!(apply_move(&mut items, 3, 1));
    assert_eq!(items, vec!['a', 'b', 'c', 'd', 'e']);
}

#[test]
fn a_move_keeps_every_item() {
    let mut items = vec![5, 1, 5, 2];
    assert!(apply_move(&mut items, 2, 0));
    let mut sorted = items.clone();
    sorted.sort();
    assert_eq!(sorted, vec![1, 2, 5, 5]);
    assert_eq!(items, vec![5, 5, 1, 2]);
}
