//! Moving a selection through a list with the keyboard, the same way in every list that has one.
//!
//! It is deliberately *not* the focus system. That answers "which widget receives keys"; this answers "which row of a list is selected", which is one focusable holding a cursor over N rows.
//!
//! The important half of the contract is the negative one: everything [`KeyNav::interpret`] returns `None` for must still reach a focused text field as typing. A list that swallows `j` cannot also be searched, which is why the vim bindings are off unless a caller asks for them.

use vstd::prelude::*;

use crate::keys::{Key, NamedKey};

verus! {

/// What a key press means to a list.
#[derive(Clone, Copy, PartialEq, Eq, Debug, Structural)]
pub enum KeyNavMove {
    Next,
    Previous,
    First,
    Last,
    /// One row down in a grid: a whole column count, not one tile. Same as [`KeyNavMove::Next`] in a single-column list.
    NextRow,
    PreviousRow,
    /// Run the selected row.
    Activate,
    /// Back out: dismiss the surface, or undo an armed confirmation.
    Cancel,
}

/// How a list reads keys: the arrows always, and optionally the vim bindings on top.
#[derive(Clone, Copy, PartialEq, Eq, Debug, Structural)]
pub struct KeyNav {
    pub vim: bool,
    /// The list runs along the screen's horizontal, so Left/Right move it rather than Up/Down.
    pub horizontal: bool,
    /// The list wraps into rows, so it uses both pairs of arrows: Left/Right for one tile and Up/Down for a whole row.
    pub grid: bool,
}

/// The move `key` names for a list read as `nav`, or `None` when it is not a navigation key.
pub open spec fn interpret_spec(nav: KeyNav, key: Key) -> Option<KeyNavMove> {
    let forward = if nav.horizontal { NamedKey::ArrowRight } else { NamedKey::ArrowDown };
    let back = if nav.horizontal { NamedKey::ArrowLeft } else { NamedKey::ArrowUp };
    match key {
        Key::Named(named) => {
            if named == forward {
                Some(KeyNavMove::Next)
            } else if named == back {
                Some(KeyNavMove::Previous)
            } else if nav.grid && named == NamedKey::ArrowDown {
                Some(KeyNavMove::NextRow)
            } else if nav.grid && named == NamedKey::ArrowUp {
                Some(KeyNavMove::PreviousRow)
            } else {
                match named {
                    NamedKey::Enter => Some(KeyNavMove::Activate),
                    NamedKey::Escape => Some(KeyNavMove::Cancel),
                    NamedKey::Home => Some(KeyNavMove::First),
                    NamedKey::End => Some(KeyNavMove::Last),
                    _ => None,
                }
            }
        },
        Key::Char(c) => {
            if !nav.vim {
                None
            } else {
                let down = if nav.grid { KeyNavMove::NextRow } else { KeyNavMove::Next };
                let up = if nav.grid { KeyNavMove::PreviousRow } else { KeyNavMove::Previous };
                if c == 'j' || c == '\u{e}' {
                    Some(down)
                } else if c == 'k' || c == '\u{10}' {
                    Some(up)
                } else if c == 'h' && nav.grid {
                    Some(KeyNavMove::Previous)
                } else if c == 'l' && nav.grid {
                    Some(KeyNavMove::Next)
                } else if c == 'g' {
                    Some(KeyNavMove::First)
                } else if c == 'G' {
                    Some(KeyNavMove::Last)
                } else {
                    None
                }
            }
        },
    }
}

/// Where `movement` lands in a grid `columns` tiles wide holding `count` tiles, from `current`.
///
/// The current index is first clamped to the last tile and a column count of zero reads as one. Steps wrap at both ends; a row move off the bottom lands on the tile below where there is one, on the last tile when the row below is a shorter final row, and wraps to the same column of the top row otherwise; a row move off the top lands in the same column of the bottom row, or the row above it when the bottom row is too short.
pub open spec fn grid_target(current: int, count: int, columns: int, movement: KeyNavMove) -> int {
    if count <= 0 {
        0
    } else {
        let cols = if columns < 1 { 1 } else { columns };
        let last = count - 1;
        let cur = if current < last { current } else { last };
        match movement {
            KeyNavMove::Next => (cur + 1) % count,
            KeyNavMove::Previous => (cur + count - 1) % count,
            KeyNavMove::First => 0,
            KeyNavMove::Last => last,
            KeyNavMove::NextRow => {
                if cur + cols <= last {
                    cur + cols
                } else if cur / cols < last / cols {
                    last
                } else {
                    cur % cols
                }
            },
            KeyNavMove::PreviousRow => {
                if cur >= cols {
                    cur - cols
                } else {
                    let bottom = (last / cols) * cols + cur % cols;
                    if bottom > last {
                        bottom - cols
                    } else {
                        bottom
                    }
                }
            },
            KeyNavMove::Activate => cur,
            KeyNavMove::Cancel => cur,
        }
    }
}

/// A default vertical list: arrows, Home/End, Enter and Escape, and no vim bindings.
impl Default for KeyNav {
    fn default() -> (r: Self)
        ensures
            r == (KeyNav { vim: false, horizontal: false, grid: false }),
    {
        KeyNav { vim: false, horizontal: false, grid: false }
    }
}

impl KeyNav {

    /// The same list, running along the horizontal.
    pub fn horizontal(self) -> (r: Self)
        ensures
            r == (KeyNav { horizontal: true, ..self }),
    {
        let mut s = self;
        s.horizontal = true;
        s
    }

    /// A grid: tiles run along a row, so Left/Right step one and Up/Down step a row.
    pub fn grid(self) -> (r: Self)
        ensures
            r == (KeyNav { horizontal: true, grid: true, ..self }),
    {
        let mut s = self;
        s.horizontal = true;
        s.grid = true;
        s
    }

    /// What `key` asks the list to do, or `None` when it is not a navigation key: everything this returns `None` for must still reach a focused text field as typing.
    pub fn interpret(self, key: &Key) -> (r: Option<KeyNavMove>)
        ensures
            r == interpret_spec(self, *key),
    {
        let (forward, back) = if self.horizontal {
            (NamedKey::ArrowRight, NamedKey::ArrowLeft)
        } else {
            (NamedKey::ArrowDown, NamedKey::ArrowUp)
        };
        match key {
            Key::Named(named) => {
                let named = *named;
                if named == forward {
                    return Some(KeyNavMove::Next);
                }
                if named == back {
                    return Some(KeyNavMove::Previous);
                }
                if self.grid {
                    if named == NamedKey::ArrowDown {
                        return Some(KeyNavMove::NextRow);
                    }
                    if named == NamedKey::ArrowUp {
                        return Some(KeyNavMove::PreviousRow);
                    }
                }
                match named {
                    NamedKey::Enter => Some(KeyNavMove::Activate),
                    NamedKey::Escape => Some(KeyNavMove::Cancel),
                    NamedKey::Home => Some(KeyNavMove::First),
                    NamedKey::End => Some(KeyNavMove::Last),
                    _ => None,
                }
            },
            Key::Char(c) => {
                if !self.vim {
                    return None;
                }
                // Vim's own pairs plus the readline pair (Ctrl-N, Ctrl-P). `G` before `g`, since the shift distinction is their whole difference.
                let (down, up) = if self.grid {
                    (KeyNavMove::NextRow, KeyNavMove::PreviousRow)
                } else {
                    (KeyNavMove::Next, KeyNavMove::Previous)
                };
                let c = *c;
                if c == 'j' || c == '\u{e}' {
                    Some(down)
                } else if c == 'k' || c == '\u{10}' {
                    Some(up)
                } else if c == 'h' && self.grid {
                    Some(KeyNavMove::Previous)
                } else if c == 'l' && self.grid {
                    Some(KeyNavMove::Next)
                } else if c == 'g' {
                    Some(KeyNavMove::First)
                } else if c == 'G' {
                    Some(KeyNavMove::Last)
                } else {
                    None
                }
            },
        }
    }
}

/// Where a move lands, given the current index and how many rows there are. Wraps at both ends.
pub fn key_nav_apply(current: usize, count: usize, movement: KeyNavMove) -> (r: usize)
    ensures
        r == grid_target(current as int, count as int, 1, movement),
{
    key_nav_apply_grid(current, count, 1, movement)
}

/// Where a move lands in a grid `columns` tiles wide. A single column is a list, which is why [`key_nav_apply`] is this with `columns = 1`.
pub fn key_nav_apply_grid(current: usize, count: usize, columns: usize, movement: KeyNavMove) -> (r:
    usize)
    ensures
        r == grid_target(current as int, count as int, columns as int, movement),
{
    if count == 0 {
        return 0;
    }
    let columns = if columns < 1 { 1 } else { columns };
    let last = count - 1;
    let current = if current < last { current } else { last };
    match movement {
        KeyNavMove::Next => {
            proof {
                lemma_step_forward(current as int, count as int);
            }
            if current == last {
                0
            } else {
                current + 1
            }
        },
        KeyNavMove::Previous => {
            proof {
                lemma_step_back(current as int, count as int);
            }
            if current == 0 {
                last
            } else {
                current - 1
            }
        },
        KeyNavMove::First => 0,
        KeyNavMove::Last => last,
        KeyNavMove::NextRow => {
            if columns <= last - current {
                current + columns
            } else if current / columns < last / columns {
                // A shorter last row: down from the end of a full row still goes down, to its final tile.
                last
            } else {
                current % columns
            }
        },
        KeyNavMove::PreviousRow => {
            if current >= columns {
                current - columns
            } else {
                proof {
                    lemma_bottom_row(last as int, columns as int);
                    vstd::arithmetic::div_mod::lemma_small_mod(current as nat, columns as nat);
                }
                let base = (last / columns) * columns;
                let column = current % columns;
                if column > last - base {
                    base - columns + column
                } else {
                    base + column
                }
            }
        },
        KeyNavMove::Activate => current,
        KeyNavMove::Cancel => current,
    }
}

proof fn lemma_step_forward(cur: int, count: int)
    requires
        0 <= cur < count,
    ensures
        (cur + 1) % count == (if cur == count - 1 { 0 } else { cur + 1 }),
{
    if cur == count - 1 {
        vstd::arithmetic::div_mod::lemma_fundamental_div_mod_converse(cur + 1, count, 1, 0);
    } else {
        vstd::arithmetic::div_mod::lemma_fundamental_div_mod_converse(cur + 1, count, 0, cur + 1);
    }
}

proof fn lemma_step_back(cur: int, count: int)
    requires
        0 <= cur < count,
    ensures
        (cur + count - 1) % count == (if cur == 0 { count - 1 } else { cur - 1 }),
{
    if cur == 0 {
        vstd::arithmetic::div_mod::lemma_fundamental_div_mod_converse(
            count - 1,
            count,
            0,
            count - 1,
        );
    } else {
        vstd::arithmetic::div_mod::lemma_fundamental_div_mod_converse(
            cur + count - 1,
            count,
            1,
            cur - 1,
        );
    }
}

/// The first tile of the bottom row sits at or before the last tile, and at least a row down when there is more than one row.
proof fn lemma_bottom_row(last: int, cols: int)
    requires
        0 <= last,
        1 <= cols,
    ensures
        0 <= (last / cols) * cols <= last,
        last - (last / cols) * cols < cols,
        (last / cols) * cols == 0 || (last / cols) * cols >= cols,
{
    vstd::arithmetic::div_mod::lemma_fundamental_div_mod(last, cols);
    let q = last / cols;
    assert(q >= 0) by {
        vstd::arithmetic::div_mod::lemma_div_pos_is_pos(last, cols);
    }
    assert(q * cols == cols * q) by (nonlinear_arith);
    assert(q * cols == 0 || q * cols >= cols) by (nonlinear_arith)
        requires
            q >= 0,
            cols >= 1,
    ;
    assert(q * cols >= 0) by (nonlinear_arith)
        requires
            q >= 0,
            cols >= 1,
    ;
}

/// Every move lands on a tile of the list: in `0..count` whenever there is a tile at all.
pub proof fn lemma_target_in_range(current: int, count: int, columns: int, movement: KeyNavMove)
    requires
        0 <= current,
        count > 0,
    ensures
        0 <= grid_target(current, count, columns, movement) < count,
{
    let cols = if columns < 1 { 1 } else { columns };
    let last = count - 1;
    let cur = if current < last { current } else { last };
    match movement {
        KeyNavMove::Next => {
            vstd::arithmetic::div_mod::lemma_mod_bound(cur + 1, count);
        },
        KeyNavMove::Previous => {
            vstd::arithmetic::div_mod::lemma_mod_bound(cur + count - 1, count);
        },
        KeyNavMove::NextRow => {
            vstd::arithmetic::div_mod::lemma_mod_bound(cur, cols);
            vstd::arithmetic::div_mod::lemma_mod_decreases(cur as nat, cols as nat);
        },
        KeyNavMove::PreviousRow => {
            lemma_bottom_row(last, cols);
            if cur < cols {
                vstd::arithmetic::div_mod::lemma_small_mod(cur as nat, cols as nat);
            }
        },
        _ => {},
    }
}

/// A step forward and a step back undo each other, at the ends of the list as anywhere else.
pub proof fn lemma_steps_undo_each_other(current: int, count: int, columns: int)
    requires
        0 <= current < count,
    ensures
        grid_target(grid_target(current, count, columns, KeyNavMove::Next), count, columns, KeyNavMove::Previous) == current,
        grid_target(grid_target(current, count, columns, KeyNavMove::Previous), count, columns, KeyNavMove::Next) == current,
{
    lemma_step_forward(current, count);
    lemma_step_back(current, count);
    let n = grid_target(current, count, columns, KeyNavMove::Next);
    let p = grid_target(current, count, columns, KeyNavMove::Previous);
    lemma_step_back(n, count);
    lemma_step_forward(p, count);
}

/// A single column is a list: a row move there is exactly a step, wrapping included.
pub proof fn lemma_single_column_rows_are_steps(current: int, count: int)
    requires
        0 <= current,
        count > 0,
    ensures
        grid_target(current, count, 1, KeyNavMove::NextRow) == grid_target(current, count, 1, KeyNavMove::Next),
        grid_target(current, count, 1, KeyNavMove::PreviousRow) == grid_target(current, count, 1, KeyNavMove::Previous),
{
    let last = count - 1;
    let cur = if current < last { current } else { last };
    lemma_step_forward(cur, count);
    lemma_step_back(cur, count);
    vstd::arithmetic::div_mod::lemma_div_basics(cur);
    vstd::arithmetic::div_mod::lemma_div_basics(last);
    vstd::arithmetic::div_mod::lemma_fundamental_div_mod_converse(cur, 1, cur, 0);
    vstd::arithmetic::div_mod::lemma_fundamental_div_mod_converse(last, 1, last, 0);
}

/// In a grid whose rows are all full, a row down and a row up undo each other, wrapping included.
pub proof fn lemma_full_grid_rows_undo_each_other(current: int, count: int, columns: int)
    requires
        0 <= current < count,
        columns >= 1,
        count % columns == 0,
    ensures
        grid_target(grid_target(current, count, columns, KeyNavMove::NextRow), count, columns, KeyNavMove::PreviousRow) == current,
        grid_target(grid_target(current, count, columns, KeyNavMove::PreviousRow), count, columns, KeyNavMove::NextRow) == current,
{
    let cols = columns;
    let last = count - 1;
    let k = count / cols;
    vstd::arithmetic::div_mod::lemma_fundamental_div_mod(count, cols);
    assert(count == k * cols) by (nonlinear_arith)
        requires count == cols * (count / cols) + count % cols, count % cols == 0, k == count / cols;
    assert(k >= 1) by (nonlinear_arith)
        requires count == k * cols, count > 0, cols >= 1;
    assert(last == (k - 1) * cols + (cols - 1)) by (nonlinear_arith)
        requires count == k * cols, last == count - 1;
    vstd::arithmetic::div_mod::lemma_fundamental_div_mod_converse(last, cols, k - 1, cols - 1);
    let q = current / cols;
    let r = current % cols;
    vstd::arithmetic::div_mod::lemma_fundamental_div_mod(current, cols);
    vstd::arithmetic::div_mod::lemma_mod_bound(current, cols);
    assert(current == q * cols + r) by (nonlinear_arith)
        requires current == cols * (current / cols) + current % cols, q == current / cols, r == current % cols;
    assert(q <= k - 1) by (nonlinear_arith)
        requires current == q * cols + r, 0 <= r < cols, current <= last, last == (k - 1) * cols + (cols - 1), cols >= 1;
    assert(q >= 0) by (nonlinear_arith)
        requires current == q * cols + r, 0 <= r < cols, current >= 0, cols >= 1;
    // Down, then up.
    if current + cols <= last {
    } else {
        assert(q == k - 1) by (nonlinear_arith)
            requires current == q * cols + r, 0 <= r < cols, current + cols > last, last == (k - 1) * cols + (cols - 1), q <= k - 1, cols >= 1;
        vstd::arithmetic::div_mod::lemma_small_mod(r as nat, cols as nat);
        assert((k - 1) * cols + r <= last);
    }
    // Up, then down.
    if current >= cols {
        let t = current - cols;
        assert(grid_target(current, count, columns, KeyNavMove::PreviousRow) == t);
        assert(t + cols <= last);
        assert(grid_target(t, count, columns, KeyNavMove::NextRow) == current);
    } else {
        assert(q == 0) by (nonlinear_arith)
            requires current == q * cols + r, 0 <= r < cols, current < cols, q >= 0, cols >= 1;
        let bottom = (k - 1) * cols + r;
        assert(last / cols == k - 1);
        assert((last / cols) * cols == (k - 1) * cols);
        vstd::arithmetic::div_mod::lemma_small_mod(r as nat, cols as nat);
        assert(current % cols == r);
        assert(bottom <= last);
        assert(grid_target(current, count, columns, KeyNavMove::PreviousRow) == bottom);
        assert(bottom + cols > last) by (nonlinear_arith)
            requires bottom == (k - 1) * cols + r, last == (k - 1) * cols + (cols - 1), r >= 0;
        vstd::arithmetic::div_mod::lemma_fundamental_div_mod_converse(bottom, cols, k - 1, r);
        assert(bottom / cols == last / cols);
        assert(bottom % cols == r);
        assert(r == current) by (nonlinear_arith)
            requires current == q * cols + r, q == 0;
        assert(!(bottom + cols <= last));
        assert(!(bottom / cols < last / cols));
        assert(grid_target(bottom, count, columns, KeyNavMove::NextRow) == current);
    }
}

/// Typing passes through: without the vim bindings no character is a navigation key, so a focused field still receives it.
pub proof fn lemma_characters_reach_the_field(nav: KeyNav, c: char)
    requires
        !nav.vim,
    ensures
        interpret_spec(nav, Key::Char(c)) is None,
{
}

/// The arrows move along the list: Down (Right in a horizontal list) is the next row and Up (Left) the previous one; in a grid, whose tiles run along a row, Up and Down move a whole row; an arrow across a plain list is no navigation at all; and Home, End, Enter and Escape mean the first row, the last row, activation and cancelling in every list.
pub proof fn lemma_arrows_move_along_the_list(nav: KeyNav)
    ensures
        !nav.horizontal ==> interpret_spec(nav, Key::Named(NamedKey::ArrowDown)) == Some(KeyNavMove::Next)
            && interpret_spec(nav, Key::Named(NamedKey::ArrowUp)) == Some(KeyNavMove::Previous),
        nav.horizontal ==> interpret_spec(nav, Key::Named(NamedKey::ArrowRight)) == Some(KeyNavMove::Next)
            && interpret_spec(nav, Key::Named(NamedKey::ArrowLeft)) == Some(KeyNavMove::Previous),
        nav.horizontal && nav.grid ==> interpret_spec(nav, Key::Named(NamedKey::ArrowDown)) == Some(KeyNavMove::NextRow)
            && interpret_spec(nav, Key::Named(NamedKey::ArrowUp)) == Some(KeyNavMove::PreviousRow),
        nav.horizontal && !nav.grid ==> interpret_spec(nav, Key::Named(NamedKey::ArrowDown)) is None
            && interpret_spec(nav, Key::Named(NamedKey::ArrowUp)) is None,
        !nav.horizontal && !nav.grid ==> interpret_spec(nav, Key::Named(NamedKey::ArrowLeft)) is None
            && interpret_spec(nav, Key::Named(NamedKey::ArrowRight)) is None,
        interpret_spec(nav, Key::Named(NamedKey::Home)) == Some(KeyNavMove::First),
        interpret_spec(nav, Key::Named(NamedKey::End)) == Some(KeyNavMove::Last),
        interpret_spec(nav, Key::Named(NamedKey::Enter)) == Some(KeyNavMove::Activate),
        interpret_spec(nav, Key::Named(NamedKey::Escape)) == Some(KeyNavMove::Cancel),
{
}

/// The vim bindings, when on: `j` and Ctrl-N go down a row and `k` and Ctrl-P up one (a whole row in a grid), `g` is the first row and `G` the last, and `h` and `l` step one tile in a grid only.
pub proof fn lemma_vim_keys_move_like_the_arrows(nav: KeyNav)
    requires
        nav.vim,
    ensures
        interpret_spec(nav, Key::Char('j')) == Some(if nav.grid { KeyNavMove::NextRow } else { KeyNavMove::Next }),
        interpret_spec(nav, Key::Char('\u{e}')) == interpret_spec(nav, Key::Char('j')),
        interpret_spec(nav, Key::Char('k')) == Some(if nav.grid { KeyNavMove::PreviousRow } else { KeyNavMove::Previous }),
        interpret_spec(nav, Key::Char('\u{10}')) == interpret_spec(nav, Key::Char('k')),
        interpret_spec(nav, Key::Char('g')) == Some(KeyNavMove::First),
        interpret_spec(nav, Key::Char('G')) == Some(KeyNavMove::Last),
        interpret_spec(nav, Key::Char('h')) == (if nav.grid { Some(KeyNavMove::Previous) } else { None }),
        interpret_spec(nav, Key::Char('l')) == (if nav.grid { Some(KeyNavMove::Next) } else { None }),
{
}

/// Each move lands where its name says, from a row inside the list: the next row is one further on, the first row after the last; the previous one further back, the last before the first; a row move goes a whole row when there is a row there; First and Last are the ends; Activate and Cancel stay put.
pub proof fn lemma_each_move_lands_where_it_says(current: int, count: int, columns: int)
    requires
        0 <= current < count,
        1 <= columns,
    ensures
        grid_target(current, count, columns, KeyNavMove::Next) == if current + 1 < count { current + 1 } else { 0 },
        grid_target(current, count, columns, KeyNavMove::Previous) == if current > 0 { current - 1 } else { count - 1 },
        grid_target(current, count, columns, KeyNavMove::First) == 0,
        grid_target(current, count, columns, KeyNavMove::Last) == count - 1,
        current + columns < count ==> grid_target(current, count, columns, KeyNavMove::NextRow) == current + columns,
        current >= columns ==> grid_target(current, count, columns, KeyNavMove::PreviousRow) == current - columns,
        grid_target(current, count, columns, KeyNavMove::Activate) == current,
        grid_target(current, count, columns, KeyNavMove::Cancel) == current,
{
    if current + 1 < count {
        assert((current + 1) % count == current + 1) by (nonlinear_arith)
            requires 0 <= current + 1 < count;
    } else {
        assert((current + 1) % count == 0) by (nonlinear_arith)
            requires current + 1 == count, count > 0;
    }
    if current > 0 {
        assert((current + count - 1) % count == current - 1) by (nonlinear_arith)
            requires 0 < current < count;
    } else {
        assert((current + count - 1) % count == count - 1) by (nonlinear_arith)
            requires current == 0, count > 0;
    }
}

} // verus!
