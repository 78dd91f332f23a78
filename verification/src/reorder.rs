//! Where a dragged item lands in a strip of items, and how to put it there.
//!
//! A target slot counts positions in the list *before* the move, so moving an item rightwards has to account for the hole it leaves behind: the off-by-one that makes "drag one to the end" land one short.

use vstd::prelude::*;

verus! {

broadcast use vstd::seq_lib::group_to_multiset_ensures;

/// Which way a strip runs. Not text direction (LTR/RTL), which answers a different question.
#[derive(Clone, Copy, Debug, PartialEq, Eq, Structural)]
pub enum Axis {
    Horizontal,
    Vertical,
}

/// The index an item taken from `from` ends up at when dropped on slot `to`, where `to` counts positions in a list of `len` items as it is before the move.
pub open spec fn move_target(len: int, from: int, to: int) -> int {
    let to = if to < len { to } else { len };
    if to > from {
        to - 1
    } else {
        to
    }
}

/// Whether dropping the item at `from` on slot `to` moves anything: a source in range, dropped anywhere but its own slot or the one just past it.
pub open spec fn is_move(len: int, from: int, to: int) -> bool {
    0 <= from < len && move_target(len, from, to) != from
}

/// The list once the item at `from` has been taken out and put back at the index [`move_target`] names.
pub open spec fn moved<T>(items: Seq<T>, from: int, to: int) -> Seq<T> {
    items.remove(from).insert(move_target(items.len() as int, from, to), items[from])
}

/// Moves the item at `from` into slot `to`, where `to` counts positions in `items` **as it is now**. Returns whether anything moved.
///
/// Dropping an item onto the slot it already occupies (or the one immediately after it, which is the same place once the item is lifted out) is not a move, and reports as such so a caller can skip writing a signal nothing changed. An out-of-range source is refused rather than panicking.
pub fn apply_move<T>(items: &mut Vec<T>, from: usize, to: usize) -> (r: bool)
    ensures
        r == is_move(old(items)@.len() as int, from as int, to as int),
        r ==> final(items)@ == moved(old(items)@, from as int, to as int),
        !r ==> final(items)@ == old(items)@,
{
    if from >= items.len() {
        return false;
    }
    let to = if to < items.len() { to } else { items.len() };
    // Removing `from` first shifts every later position down one, so a slot past it is one too far.
    let target = if to > from { to - 1 } else { to };
    if target == from {
        return false;
    }
    let item = items.remove(from);
    items.insert(target, item);
    true
}

/// A move rearranges the list and nothing else: the same items, each as many times as before.
pub proof fn lemma_move_keeps_the_items<T>(items: Seq<T>, from: int, to: int)
    requires
        0 <= from < items.len(),
        0 <= to,
    ensures
        moved(items, from, to).to_multiset() == items.to_multiset(),
        moved(items, from, to).len() == items.len(),
        moved(items, from, to)[move_target(items.len() as int, from, to)] == items[from],
{
    let t = move_target(items.len() as int, from, to);
    let rest = items.remove(from);
    let out = rest.insert(t, items[from]);
    assert(0 <= t <= rest.len());
    assert(out.remove(t) =~= rest);
    assert(out.remove(t).to_multiset() == out.to_multiset().remove(out[t]));
    assert(out.to_multiset().count(items[from]) > 0);
    assert(rest.to_multiset() == items.to_multiset().remove(items[from]));
    assert(items.to_multiset().count(items[from]) > 0);
    assert(out.to_multiset() =~= items.to_multiset());
}

/// Dropping a moved item back on the slot it came from restores the list: slot `from` when it came from before where it went, `from + 1` when it came from after.
pub proof fn lemma_move_back_restores<T>(items: Seq<T>, from: int, to: int)
    requires
        is_move(items.len() as int, from, to),
        0 <= to,
    ensures
        ({
            let t = move_target(items.len() as int, from, to);
            let back = if from < t { from } else { from + 1 };
            &&& is_move(items.len() as int, t, back)
            &&& moved(moved(items, from, to), t, back) == items
        }),
{
    let len = items.len() as int;
    let t = move_target(len, from, to);
    let back = if from < t { from } else { from + 1 };
    let once = moved(items, from, to);
    assert(once.len() == len);
    assert(move_target(len, t, back) == from);
    assert(once[t] == items[from]);
    assert(once.remove(t) =~= items.remove(from));
    assert(moved(once, t, back) =~= items);
}

} // verus!
