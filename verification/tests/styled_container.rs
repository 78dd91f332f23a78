use std::cell::{Cell, RefCell};
use ui_core::styled_container::{
    BoxClaims, BoxEvent, BoxFacts, BoxRoute, StateFlags, box_route, is_inert, passes_by, pointer_hooks_set, repaints_on_pointer,
    resolve_paint_state, resolve_paint_state_by,
};
use ui_core::{KeyAnswer, PAINT_STATES, PaintState};

/// The order is the precedence, and it is the whole of the rule the view used to spell out as a chain.
#[test]
fn states_resolve_most_specific_first() {
    assert!(
        matches!(
            PAINT_STATES,
            [PaintState::Disabled, PaintState::Active, PaintState::Hover]
        ),
        "the most specific state wins"
    );
}

fn flags(disabled: bool, active: bool, hover: bool) -> StateFlags {
    StateFlags { disabled, active, hover }
}

#[test]
fn a_disabled_box_paints_disabled_whatever_the_pointer_does() {
    let all = flags(true, true, true);
    assert_eq!(resolve_paint_state(all, all), Some(PaintState::Disabled));
}

#[test]
fn pressed_paint_wins_over_hover_paint() {
    let styled = flags(false, true, true);
    let engaged = flags(false, true, true);
    assert_eq!(resolve_paint_state(styled, engaged), Some(PaintState::Active));
}

#[test]
fn a_state_without_a_paint_does_not_win_even_when_engaged() {
    let styled = flags(false, false, true);
    let engaged = flags(true, true, true);
    assert_eq!(resolve_paint_state(styled, engaged), Some(PaintState::Hover));
    assert_eq!(resolve_paint_state(flags(false, false, false), engaged), None);
}

#[test]
fn nothing_engaged_draws_the_base_paint() {
    assert_eq!(resolve_paint_state(flags(true, true, true), flags(false, false, false)), None);
}

#[test]
fn only_hover_and_pressed_paint_track_the_pointer() {
    assert!(repaints_on_pointer(flags(false, false, true)));
    assert!(repaints_on_pointer(flags(false, true, false)));
    assert!(!repaints_on_pointer(flags(true, false, false)));
}

#[test]
fn a_unit_answer_takes_nothing_and_a_bool_says_itself() {
    assert!(!().took());
    assert!(true.took());
    assert!(!false.took());
}

#[test]
fn a_box_that_claims_anything_is_not_inert() {
    let nothing = BoxClaims {
        press: false,
        drag: false,
        repaints_on_pointer: false,
        pointer_hooks: false,
        on_key: false,
        focusable: false,
        holds_stroke: false,
    };
    assert!(is_inert(nothing));
    assert!(!is_inert(BoxClaims { holds_stroke: true, ..nothing }));
    assert!(!is_inert(BoxClaims { on_key: true, ..nothing }));
    assert!(pointer_hooks_set(false, false, false, true), "a cursor alone needs the moves");
    assert!(!pointer_hooks_set(false, false, false, false));
    assert!(passes_by(false, false, false));
    assert!(!passes_by(true, false, false));
    assert!(!passes_by(false, true, false));
    assert!(!passes_by(false, false, true));
}

#[test]
fn a_state_without_a_style_never_reads_its_signal() {
    let asked = Cell::new(0);
    let plain = flags(false, false, false);
    let resolved = resolve_paint_state_by(plain, |_state| {
        asked.set(asked.get() + 1);
        true
    });
    assert_eq!(resolved, None, "a box with no state paint resolved one anyway");
    assert_eq!(asked.get(), 0, "a state with no paint was asked whether it is engaged");

    let hover_only = flags(false, false, true);
    let seen = RefCell::new(Vec::new());
    let resolved = resolve_paint_state_by(hover_only, |state| {
        seen.borrow_mut().push(state);
        true
    });
    assert_eq!(resolved, Some(PaintState::Hover));
    assert_eq!(*seen.borrow(), vec![PaintState::Hover]);
}

#[test]
fn a_won_state_stops_the_asking() {
    let seen = RefCell::new(Vec::new());
    let resolved = resolve_paint_state_by(flags(true, true, true), |state| {
        seen.borrow_mut().push(state);
        state != PaintState::Disabled
    });
    assert_eq!(resolved, Some(PaintState::Active));
    assert_eq!(*seen.borrow(), vec![PaintState::Disabled, PaintState::Active]);
}

fn facts() -> BoxFacts {
    BoxFacts {
        disabled: false,
        inert: false,
        focused: false,
        activates: false,
        has_on_key: false,
        has_on_scroll: false,
        text_entry_takes_key: false,
    }
}

#[test]
fn a_disabled_box_refuses_the_pointer_and_routes_the_rest() {
    let disabled = BoxFacts { disabled: true, ..facts() };
    assert_eq!(box_route(disabled, BoxEvent::PointerPressed), BoxRoute::Refuse);
    assert_eq!(box_route(disabled, BoxEvent::PointerMoved), BoxRoute::Refuse);
    assert_eq!(box_route(disabled, BoxEvent::PointerReleased), BoxRoute::Refuse);
    assert_eq!(box_route(disabled, BoxEvent::Scrolled { inside: true }), BoxRoute::Refuse);
    assert_eq!(box_route(disabled, BoxEvent::CursorLeft), BoxRoute::Children);
    assert_eq!(
        box_route(disabled, BoxEvent::Key { tab: true, shift: false, activation: false }),
        BoxRoute::Children
    );
}

#[test]
fn an_inert_box_routes_everything_to_its_children() {
    let inert = BoxFacts { inert: true, ..facts() };
    assert_eq!(box_route(inert, BoxEvent::PointerPressed), BoxRoute::Children);
    assert_eq!(box_route(inert, BoxEvent::FocusLost), BoxRoute::Children);
}

#[test]
fn a_live_box_handles_the_pointer_and_ends_containment_on_leaving() {
    let live = facts();
    assert_eq!(box_route(live, BoxEvent::PointerReleased), BoxRoute::Pointer);
    assert_eq!(box_route(live, BoxEvent::CursorLeft), BoxRoute::LeaveThenChildren);
    assert_eq!(box_route(live, BoxEvent::FocusLost), BoxRoute::LoseFocusThenChildren);
    assert_eq!(box_route(live, BoxEvent::Other), BoxRoute::Children);
    assert_eq!(
        box_route(live, BoxEvent::Scrolled { inside: true }),
        BoxRoute::ScrollAfterChildren { fires: false }
    );
    let wheel = BoxFacts { has_on_scroll: true, ..facts() };
    assert_eq!(
        box_route(wheel, BoxEvent::Scrolled { inside: true }),
        BoxRoute::ScrollAfterChildren { fires: true }
    );
    assert_eq!(
        box_route(wheel, BoxEvent::Scrolled { inside: false }),
        BoxRoute::ScrollAfterChildren { fires: false }
    );
}

#[test]
fn keys_go_to_focus_then_activation_then_the_shortcut() {
    let focused = BoxFacts { focused: true, activates: true, ..facts() };
    assert_eq!(
        box_route(focused, BoxEvent::Key { tab: true, shift: true, activation: false }),
        BoxRoute::MoveFocus { backwards: true }
    );
    assert_eq!(
        box_route(focused, BoxEvent::Key { tab: false, shift: false, activation: true }),
        BoxRoute::Key { try_activate: true, try_shortcut: false }
    );
    let own_keys = BoxFacts { has_on_key: true, ..focused };
    assert_eq!(
        box_route(own_keys, BoxEvent::Key { tab: false, shift: false, activation: true }),
        BoxRoute::Key { try_activate: false, try_shortcut: true }
    );
    let typing = BoxFacts { text_entry_takes_key: true, ..own_keys };
    assert_eq!(
        box_route(typing, BoxEvent::Key { tab: false, shift: false, activation: false }),
        BoxRoute::Key { try_activate: false, try_shortcut: false }
    );
    let unfocused = BoxFacts { focused: false, ..facts() };
    assert_eq!(
        box_route(unfocused, BoxEvent::Key { tab: true, shift: false, activation: false }),
        BoxRoute::Key { try_activate: false, try_shortcut: false }
    );
}
