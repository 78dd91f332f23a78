use ui_core::dispatch::{DragCancel, Dismissal, dismissal_for, drag_cancel_for};
use ui_core::{Event, Key, ModifiersState, NamedKey, PointerButton};

fn key(named: NamedKey) -> Event {
    Event::KeyPressed { key: Key::Named(named), modifiers: ModifiersState::default() }
}

#[test]
fn a_press_cancels_a_drag_another_button_started_and_escape_any() {
    assert_eq!(
        drag_cancel_for(&Event::PointerPressed { button: PointerButton::Secondary }),
        DragCancel::ByButton(PointerButton::Secondary)
    );
    assert_eq!(drag_cancel_for(&key(NamedKey::Escape)), DragCancel::Live);
    assert_eq!(drag_cancel_for(&key(NamedKey::Enter)), DragCancel::Nothing);
    assert_eq!(drag_cancel_for(&Event::Other), DragCancel::Nothing);
}

#[test]
fn escape_dismisses_and_enter_confirms_only_when_nothing_is_focused() {
    assert_eq!(dismissal_for(&key(NamedKey::Escape), false), Dismissal::Dismiss);
    assert_eq!(dismissal_for(&key(NamedKey::Enter), false), Dismissal::Confirm);
    assert_eq!(dismissal_for(&key(NamedKey::Escape), true), Dismissal::Nothing);
    assert_eq!(dismissal_for(&key(NamedKey::Enter), true), Dismissal::Nothing);
    assert_eq!(dismissal_for(&Event::KeyPressed { key: Key::Char('x'), modifiers: ModifiersState::default() }, false), Dismissal::Nothing);
}
