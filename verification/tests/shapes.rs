use ui_core::layout_item::admits_event;
use ui_core::surface::{Flow, Justify, escape_dismisses, press_dismisses};
use ui_core::{ClipAxis, ClipPointer, Edge, Heading, Section};

#[test]
fn a_clip_stops_the_pointer_and_cuts_both_ways_by_default() {
    assert_eq!(ClipPointer::default(), ClipPointer::Stop);
    assert_eq!(ClipAxis::default(), ClipAxis::Both);
    assert!(ClipAxis::Both.cuts_horizontally() && ClipAxis::Both.cuts_vertically());
    assert!(ClipAxis::Horizontal.cuts_horizontally() && !ClipAxis::Horizontal.cuts_vertically());
    assert!(!ClipAxis::Vertical.cuts_horizontally() && ClipAxis::Vertical.cuts_vertically());
}

#[test]
fn a_stopping_clip_refuses_a_pointer_outside_it() {
    assert!(!admits_event(ClipPointer::Stop, true, false));
    assert!(admits_event(ClipPointer::Stop, true, true));
    assert!(admits_event(ClipPointer::Stop, false, false), "a release or a key passes through");
    assert!(admits_event(ClipPointer::Through, true, false), "a paint-only clip lets it all by");
}

#[test]
fn a_panel_slides_in_from_its_edge_and_a_centred_one_fades() {
    assert_eq!(Edge::Top.slide_direction(), (0, -1));
    assert_eq!(Edge::Right.slide_direction(), (1, 0));
    assert!(Edge::Left.slides());
    assert!(!Edge::Center.slides());
    assert_eq!(Edge::Center.slide_direction(), (0, 0));
}

#[test]
fn a_section_and_its_heading_are_plain_markers() {
    let _heading = Heading;
    let _section = Section;
}

#[test]
fn a_surface_is_dismissed_from_outside_and_by_an_escape_its_content_left() {
    assert!(press_dismisses(false, true));
    assert!(!press_dismisses(true, true), "a press inside is the content's");
    assert!(!press_dismisses(false, false), "nothing to run");
    assert!(escape_dismisses(false, true));
    assert!(!escape_dismisses(true, true), "a focused field blurs first");
}

#[test]
fn a_surface_places_its_panel_against_its_edge() {
    let top = Edge::Top.panel_placement();
    assert_eq!((top.flow, top.justify, top.centred_across), (Flow::Column, Justify::Start, false));
    let bottom = Edge::Bottom.panel_placement();
    assert_eq!((bottom.flow, bottom.justify), (Flow::Column, Justify::End));
    let left = Edge::Left.panel_placement();
    assert_eq!((left.flow, left.justify), (Flow::Row, Justify::Start));
    let right = Edge::Right.panel_placement();
    assert_eq!((right.flow, right.justify, right.centred_across), (Flow::Row, Justify::End, false));
    let centre = Edge::Center.panel_placement();
    assert_eq!((centre.flow, centre.justify, centre.centred_across), (Flow::Column, Justify::Center, true));
}
