use ui_core::Placement;
use ui_core::overlay::{Fits, resolve_placement};

fn fits(below: bool, above: bool, after: bool, before: bool) -> Fits {
    Fits { below, above, after, before }
}

#[test]
fn a_side_that_fits_is_kept() {
    assert_eq!(resolve_placement(Placement::Below, fits(true, true, true, true)), Placement::Below);
    assert_eq!(resolve_placement(Placement::End, fits(false, false, true, false)), Placement::End);
}

#[test]
fn a_panel_flips_when_only_the_other_side_fits() {
    assert_eq!(resolve_placement(Placement::Below, fits(false, true, true, true)), Placement::Above);
    assert_eq!(resolve_placement(Placement::Above, fits(true, false, true, true)), Placement::Below);
    assert_eq!(resolve_placement(Placement::Start, fits(true, true, true, false)), Placement::End);
    assert_eq!(resolve_placement(Placement::End, fits(true, true, false, true)), Placement::Start);
}

#[test]
fn a_panel_that_fits_nowhere_stays_where_it_was_asked_for() {
    assert_eq!(resolve_placement(Placement::Below, fits(false, false, true, true)), Placement::Below);
    assert_eq!(resolve_placement(Placement::Start, fits(true, true, false, false)), Placement::Start);
}
