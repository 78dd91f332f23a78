use ui_core::presence::{PresenceAction, PresenceHost};
use ui_core::lazy::LazyPhase;
use ui_core::presence::Mount;

#[test]
fn an_exit_is_counted_once_and_taken_back_once() {
    let mut exits: usize = 0;
    let mut m = Mount::new();
    assert!(m.leave(true, &mut exits));
    assert!(m.leave(true, &mut exits));
    assert_eq!(exits, 1);
    assert!(m.is_leaving());
    m.come_back(&mut exits);
    assert_eq!(exits, 0);
    assert!(!m.is_leaving());
    m.uncount(&mut exits);
    assert_eq!(exits, 0, "nothing left to take back");
}

#[test]
fn nothing_to_play_means_no_wait() {
    let mut exits: usize = 3;
    let mut m = Mount::new();
    assert!(!m.leave(false, &mut exits));
    assert_eq!(exits, 3);
    assert!(!m.is_leaving());
}

#[test]
fn a_mount_freed_mid_exit_takes_its_count_back() {
    let mut exits: usize = 2;
    let mut a = Mount::new();
    let mut b = Mount::new();
    a.leave(true, &mut exits);
    b.leave(true, &mut exits);
    assert_eq!(exits, 4);
    a.uncount(&mut exits);
    assert_eq!(exits, 3);
    b.come_back(&mut exits);
    assert_eq!(exits, 2);
}

#[test]
fn a_lazy_block_builds_once_on_first_showing() {
    let mut lazy = LazyPhase::new();
    assert!(!lazy.show(false));
    assert!(!lazy.is_built());
    assert!(lazy.show(true));
    assert!(lazy.is_built());
    assert!(!lazy.show(false));
    assert!(!lazy.show(true));
}

#[test]
fn a_presence_shown_from_the_start_appears_without_an_entrance() {
    let mut exits: usize = 0;
    let mut p = PresenceHost::new();
    assert_eq!(p.appear(&mut exits), PresenceAction::Mount { animate: false });
    assert!(p.is_mounted());
    assert_eq!(p.appear(&mut exits), PresenceAction::Nothing);
}

#[test]
fn a_presence_hidden_from_the_start_keeps_its_node_out_and_animates_its_first_showing() {
    let mut exits: usize = 0;
    let mut p = PresenceHost::new();
    assert_eq!(p.disappear(true, &mut exits), PresenceAction::HideEmpty);
    assert_eq!(p.appear(&mut exits), PresenceAction::Mount { animate: true });
}

#[test]
fn a_hidden_child_plays_its_exit_then_goes() {
    let mut exits: usize = 0;
    let mut p = PresenceHost::new();
    p.appear(&mut exits);
    assert_eq!(p.disappear(true, &mut exits), PresenceAction::Leave);
    assert_eq!(exits, 1);
    assert!(p.is_mounted());
    assert_eq!(p.exit_done(&mut exits), PresenceAction::Unmount);
    assert_eq!(exits, 0);
    assert!(!p.is_mounted());
    assert_eq!(p.exit_done(&mut exits), PresenceAction::Nothing);
}

#[test]
fn shown_again_mid_exit_the_child_turns_back() {
    let mut exits: usize = 0;
    let mut p = PresenceHost::new();
    p.appear(&mut exits);
    p.disappear(true, &mut exits);
    assert_eq!(p.appear(&mut exits), PresenceAction::TurnBack);
    assert_eq!(exits, 0);
    assert!(p.is_mounted());
}

#[test]
fn a_child_with_no_exit_goes_at_once() {
    let mut exits: usize = 0;
    let mut p = PresenceHost::new();
    p.appear(&mut exits);
    assert_eq!(p.disappear(false, &mut exits), PresenceAction::Unmount);
    assert!(!p.is_mounted());
    assert_eq!(exits, 0);
}
