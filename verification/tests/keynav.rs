use ui_core::{Key, KeyNav, KeyNavMove, NamedKey, key_nav_apply, key_nav_apply_grid};

fn named(n: NamedKey) -> Key {
    Key::Named(n)
}

#[test]
fn a_default_list_reads_the_vertical_arrows() {
    let nav = KeyNav::default();
    assert_eq!(nav.interpret(&named(NamedKey::ArrowDown)), Some(KeyNavMove::Next));
    assert_eq!(nav.interpret(&named(NamedKey::ArrowUp)), Some(KeyNavMove::Previous));
    assert_eq!(nav.interpret(&named(NamedKey::ArrowRight)), None);
    assert_eq!(nav.interpret(&named(NamedKey::Enter)), Some(KeyNavMove::Activate));
    assert_eq!(nav.interpret(&named(NamedKey::Escape)), Some(KeyNavMove::Cancel));
    assert_eq!(nav.interpret(&named(NamedKey::Home)), Some(KeyNavMove::First));
    assert_eq!(nav.interpret(&named(NamedKey::End)), Some(KeyNavMove::Last));
    assert_eq!(nav.interpret(&named(NamedKey::Tab)), None);
}

#[test]
fn typing_reaches_a_field_without_the_vim_bindings() {
    let nav = KeyNav::default();
    for c in ['j', 'k', 'g', 'G', 'x', '\u{e}'] {
        assert_eq!(nav.interpret(&Key::Char(c)), None);
    }
}

#[test]
fn the_vim_bindings_move_a_list_when_asked_for() {
    let nav = KeyNav { vim: true, ..KeyNav::default() };
    assert_eq!(nav.interpret(&Key::Char('j')), Some(KeyNavMove::Next));
    assert_eq!(nav.interpret(&Key::Char('k')), Some(KeyNavMove::Previous));
    assert_eq!(nav.interpret(&Key::Char('g')), Some(KeyNavMove::First));
    assert_eq!(nav.interpret(&Key::Char('G')), Some(KeyNavMove::Last));
    assert_eq!(nav.interpret(&Key::Char('\u{e}')), Some(KeyNavMove::Next));
    assert_eq!(nav.interpret(&Key::Char('\u{10}')), Some(KeyNavMove::Previous));
    assert_eq!(nav.interpret(&Key::Char('h')), None, "h is a grid key only");
    assert_eq!(nav.interpret(&Key::Char('x')), None);
}

#[test]
fn a_horizontal_list_reads_left_and_right() {
    let nav = KeyNav::default().horizontal();
    assert!(nav.horizontal && !nav.grid);
    assert_eq!(nav.interpret(&named(NamedKey::ArrowRight)), Some(KeyNavMove::Next));
    assert_eq!(nav.interpret(&named(NamedKey::ArrowLeft)), Some(KeyNavMove::Previous));
    assert_eq!(nav.interpret(&named(NamedKey::ArrowDown)), None);
}

#[test]
fn a_grid_reads_both_pairs_of_arrows() {
    let nav = KeyNav::default().grid();
    assert!(nav.horizontal && nav.grid);
    assert_eq!(nav.interpret(&named(NamedKey::ArrowRight)), Some(KeyNavMove::Next));
    assert_eq!(nav.interpret(&named(NamedKey::ArrowDown)), Some(KeyNavMove::NextRow));
    assert_eq!(nav.interpret(&named(NamedKey::ArrowUp)), Some(KeyNavMove::PreviousRow));
    let vim = KeyNav { vim: true, ..nav };
    assert_eq!(vim.interpret(&Key::Char('j')), Some(KeyNavMove::NextRow));
    assert_eq!(vim.interpret(&Key::Char('h')), Some(KeyNavMove::Previous));
    assert_eq!(vim.interpret(&Key::Char('l')), Some(KeyNavMove::Next));
}

#[test]
fn steps_wrap_at_both_ends() {
    assert_eq!(key_nav_apply(4, 5, KeyNavMove::Next), 0);
    assert_eq!(key_nav_apply(0, 5, KeyNavMove::Previous), 4);
    assert_eq!(key_nav_apply(2, 5, KeyNavMove::Next), 3);
    assert_eq!(key_nav_apply(2, 5, KeyNavMove::Previous), 1);
    assert_eq!(key_nav_apply(2, 5, KeyNavMove::First), 0);
    assert_eq!(key_nav_apply(2, 5, KeyNavMove::Last), 4);
}

#[test]
fn an_empty_list_has_only_index_zero() {
    for m in [KeyNavMove::Next, KeyNavMove::Previous, KeyNavMove::Last, KeyNavMove::NextRow] {
        assert_eq!(key_nav_apply(3, 0, m), 0);
    }
}

#[test]
fn a_current_past_the_end_is_clamped_first() {
    assert_eq!(key_nav_apply(99, 5, KeyNavMove::Activate), 4);
    assert_eq!(key_nav_apply(99, 5, KeyNavMove::Cancel), 4);
    assert_eq!(key_nav_apply(99, 5, KeyNavMove::Next), 0);
}

#[test]
fn a_row_down_is_a_column_count() {
    // Seven tiles, three wide: rows [0 1 2] [3 4 5] [6].
    assert_eq!(key_nav_apply_grid(1, 7, 3, KeyNavMove::NextRow), 4);
    assert_eq!(key_nav_apply_grid(4, 7, 3, KeyNavMove::PreviousRow), 1);
}

#[test]
fn down_into_a_shorter_last_row_lands_on_its_final_tile() {
    assert_eq!(key_nav_apply_grid(5, 7, 3, KeyNavMove::NextRow), 6);
    assert_eq!(key_nav_apply_grid(4, 7, 3, KeyNavMove::NextRow), 6);
}

#[test]
fn off_the_bottom_wraps_to_the_same_column() {
    assert_eq!(key_nav_apply_grid(6, 7, 3, KeyNavMove::NextRow), 0);
    assert_eq!(key_nav_apply_grid(7, 9, 3, KeyNavMove::NextRow), 1);
}

#[test]
fn off_the_top_lands_in_the_bottom_row_or_the_one_above_it() {
    assert_eq!(key_nav_apply_grid(0, 7, 3, KeyNavMove::PreviousRow), 6);
    assert_eq!(key_nav_apply_grid(1, 7, 3, KeyNavMove::PreviousRow), 4);
    assert_eq!(key_nav_apply_grid(2, 7, 3, KeyNavMove::PreviousRow), 5);
}

#[test]
fn a_single_column_grid_is_a_list() {
    for current in 0..5 {
        assert_eq!(
            key_nav_apply_grid(current, 5, 1, KeyNavMove::NextRow),
            key_nav_apply(current, 5, KeyNavMove::Next)
        );
        assert_eq!(
            key_nav_apply_grid(current, 5, 0, KeyNavMove::PreviousRow),
            key_nav_apply(current, 5, KeyNavMove::Previous)
        );
    }
}

#[test]
fn in_a_full_grid_a_row_down_and_up_undo_each_other() {
    for current in 0..9 {
        let down = key_nav_apply_grid(current, 9, 3, KeyNavMove::NextRow);
        assert_eq!(key_nav_apply_grid(down, 9, 3, KeyNavMove::PreviousRow), current);
        let up = key_nav_apply_grid(current, 9, 3, KeyNavMove::PreviousRow);
        assert_eq!(key_nav_apply_grid(up, 9, 3, KeyNavMove::NextRow), current);
    }
}

#[test]
fn huge_lists_step_without_overflowing() {
    let n = usize::MAX;
    assert_eq!(key_nav_apply(0, n, KeyNavMove::Previous), n - 1);
    assert_eq!(key_nav_apply(n - 1, n, KeyNavMove::Next), 0);
    assert_eq!(key_nav_apply_grid(n - 2, n, n - 1, KeyNavMove::NextRow), n - 1);
}
