//! The plan a keyed list follows when its source changes: which row each item reuses, which old rows leave and where they play their exit, and which are disposed.
//!
//! A reconcile reuses the widget of every key that persists, builds a row for every key that is new, and lets a removed row with an exit to play stay in the list, next to the row it followed, until its exit finishes; every other removed row is disposed. This module decides all of that over keys; the widgets themselves are the caller's.

use vstd::prelude::*;

use crate::row_keys::{ByteOrder, Occurrences, identity, native_byte_order, seen_count};

verus! {

/// The first index below `n` at which `s` holds `k`.
pub open spec fn first_index(s: Seq<u64>, k: u64, n: int) -> Option<int>
    decreases n,
{
    if n <= 0 {
        None
    } else {
        match first_index(s, k, n - 1) {
            Some(j) => Some(j),
            None => if s[n - 1] == k {
                Some(n - 1)
            } else {
                None
            },
        }
    }
}

/// Whether `s` holds `k` anywhere.
pub open spec fn holds_key(s: Seq<u64>, k: u64) -> bool {
    first_index(s, k, s.len() as int) is Some
}

proof fn lemma_first_index_found(s: Seq<u64>, k: u64, n: int)
    requires
        0 <= n <= s.len(),
    ensures
        first_index(s, k, n) matches Some(j) ==> 0 <= j < n && s[j] == k && forall|a: int| 0 <= a < j ==> s[a] != k,
        first_index(s, k, n) is None ==> forall|a: int| 0 <= a < n ==> s[a] != k,
    decreases n,
{
    if n > 0 {
        lemma_first_index_found(s, k, n - 1);
    }
}

proof fn lemma_first_index_stable(s: Seq<u64>, k: u64, j: int, n: int)
    requires
        0 <= j < n <= s.len(),
        s[j] == k,
        forall|a: int| 0 <= a < j ==> s[a] != k,
    ensures
        first_index(s, k, n) == Some(j),
    decreases n,
{
    if n > j + 1 {
        lemma_first_index_stable(s, k, j, n - 1);
    } else {
        lemma_first_index_absent(s, k, j);
    }
}

proof fn lemma_first_index_absent(s: Seq<u64>, k: u64, n: int)
    requires
        0 <= n <= s.len(),
        forall|a: int| 0 <= a < n ==> s[a] != k,
    ensures
        first_index(s, k, n) is None,
    decreases n,
{
    if n > 0 {
        lemma_first_index_absent(s, k, n - 1);
    }
}

/// The first index below `n` at which `s` holds `k`.
fn find_first(s: &Vec<u64>, k: u64, n: usize) -> (r: Option<usize>)
    requires
        n <= s@.len(),
    ensures
        r == (match first_index(s@, k, n as int) {
            Some(j) => Some(j as usize),
            None => None::<usize>,
        }),
{
    let mut i: usize = 0;
    while i < n
        invariant
            i <= n <= s@.len(),
            forall|a: int| 0 <= a < i ==> s@[a] != k,
        decreases n - i,
    {
        if s[i] == k {
            proof {
                lemma_first_index_stable(s@, k, i as int, n as int);
            }
            return Some(i);
        }
        i = i + 1;
    }
    proof {
        lemma_first_index_absent(s@, k, n as int);
    }
    None
}

/// How many of the first `n` entries of `s` are `k`.
pub open spec fn count_before(s: Seq<u64>, n: int, k: u64) -> nat
    decreases n,
{
    if n <= 0 {
        0
    } else {
        count_before(s, n - 1, k) + if s[n - 1] == k {
            1nat
        } else {
            0nat
        }
    }
}

proof fn lemma_count_bounded(s: Seq<u64>, n: int, k: u64)
    requires
        0 <= n,
    ensures
        count_before(s, n, k) <= n,
    decreases n,
{
    if n > 0 {
        lemma_count_bounded(s, n - 1, k);
    }
}

/// The identity each item of a pass is known by, on a machine of byte order `order`: the key itself the first time it occurs, a key derived from it and from how many came before every later time.
pub open spec fn identities(order: ByteOrder, raw: Seq<u64>) -> Seq<u64> {
    Seq::new(raw.len(), |i: int| identity(order, raw[i], count_before(raw, i, raw[i]) as u64))
}

/// The identities of one pass's items, in order, hashed in byte order `order`: what a row is reused by. The same keys in the same order give the same identities on every pass.
pub fn identify_keys_in(order: ByteOrder, raw: &Vec<u64>) -> (r: Vec<u64>)
    requires
        raw@.len() < u64::MAX,
    ensures
        r@ == identities(order, raw@),
{
    let mut occurrences = Occurrences::with_order(order);
    let mut r: Vec<u64> = Vec::new();
    let mut i: usize = 0;
    while i < raw.len()
        invariant
            i <= raw@.len() < u64::MAX,
            r@.len() == i,
            occurrences.order() == order,
            forall|a: int| 0 <= a < i ==> r@[a] == identities(order, raw@)[a],
            forall|k: u64| seen_count(occurrences@, k) == count_before(raw@, i as int, k),
        decreases raw@.len() - i,
    {
        let k = raw[i];
        proof {
            lemma_count_bounded(raw@, i as int, k);
        }
        let ghost before = occurrences@;
        let id = occurrences.identify(k);
        r.push(id);
        proof {
            assert forall|x: u64| seen_count(occurrences@, x) == count_before(raw@, i + 1, x) by {
                if x != k {
                    assert(seen_count(before, x) == count_before(raw@, i as int, x));
                }
            }
        }
        i = i + 1;
    }
    proof {
        assert(r@ =~= identities(order, raw@));
    }
    r
}

/// The identities of one pass's items, in order, hashed in the machine's byte order, as `u64::hash` writes them: [`identify_keys_in`] with [`native_byte_order`].
pub fn identify_keys(raw: &Vec<u64>) -> (r: Vec<u64>)
    requires
        raw@.len() < u64::MAX,
    ensures
        exists|order: ByteOrder| r@ == identities(order, raw@),
{
    let order = native_byte_order();
    identify_keys_in(order, raw)
}

proof fn lemma_count_zero_when_absent(s: Seq<u64>, n: int, k: u64)
    requires
        0 <= n <= s.len(),
        forall|a: int| 0 <= a < n ==> s[a] != k,
    ensures
        count_before(s, n, k) == 0,
    decreases n,
{
    if n > 0 {
        lemma_count_zero_when_absent(s, n - 1, k);
    }
}

/// A row keeps its identity from pass to pass: in any one byte order, item `i` of a pass is known by its key when no earlier item carries that key, and otherwise by the hash of its key and how many earlier items carry it, whatever the rest of the pass holds.
pub proof fn lemma_a_row_is_known_by_its_key_and_occurrence(order: ByteOrder, raw: Seq<u64>, i: int)
    requires
        0 <= i < raw.len(),
        raw.len() < u64::MAX,
    ensures
        (forall|a: int| 0 <= a < i ==> raw[a] != raw[i]) ==> identities(order, raw)[i] == raw[i],
        (exists|a: int| 0 <= a < i && raw[a] == raw[i]) ==> identities(order, raw)[i] == crate::row_keys::occurrence_hash(
            order,
            raw[i],
            count_before(raw, i, raw[i]) as u64,
        ),
{
    lemma_count_bounded(raw, i, raw[i]);
    if forall|a: int| 0 <= a < i ==> raw[a] != raw[i] {
        lemma_count_zero_when_absent(raw, i, raw[i]);
    }
    if exists|a: int| 0 <= a < i && raw[a] == raw[i] {
        let a = choose|a: int| 0 <= a < i && raw[a] == raw[i];
        lemma_count_positive(raw, i, raw[i], a);
    }
}

proof fn lemma_count_positive(s: Seq<u64>, n: int, k: u64, a: int)
    requires
        0 <= a < n <= s.len(),
        s[a] == k,
    ensures
        count_before(s, n, k) > 0,
    decreases n,
{
    if n - 1 > a {
        lemma_count_positive(s, n - 1, k, a);
    }
}

/// The old row a new row `i` reuses: the first old row with its key, unless an earlier new row carries the same key and took that row already.
pub open spec fn reuse_of(old: Seq<u64>, keys: Seq<u64>, i: int) -> Option<int> {
    if first_index(keys, keys[i], i) is Some {
        None
    } else {
        first_index(old, keys[i], old.len() as int)
    }
}

/// Which old row each new row reuses, `None` for a row to build.
pub fn reuse_plan(old: &Vec<u64>, keys: &Vec<u64>) -> (r: Vec<Option<usize>>)
    ensures
        r@.len() == keys@.len(),
        forall|i: int| 0 <= i < keys@.len() ==> (#[trigger] r@[i]) == (match reuse_of(old@, keys@, i) {
            Some(j) => Some(j as usize),
            None => None::<usize>,
        }),
{
    let mut r: Vec<Option<usize>> = Vec::new();
    let mut i: usize = 0;
    while i < keys.len()
        invariant
            i <= keys@.len(),
            r@.len() == i,
            forall|a: int| 0 <= a < i ==> (#[trigger] r@[a]) == (match reuse_of(old@, keys@, a) {
                Some(j) => Some(j as usize),
                None => None::<usize>,
            }),
        decreases keys@.len() - i,
    {
        let k = keys[i];
        let row = match find_first(keys, k, i) {
            Some(_) => None,
            None => find_first(old, k, old.len()),
        };
        r.push(row);
        i = i + 1;
    }
    r
}

/// What becomes of an old row.
#[derive(Clone, Copy, Debug, PartialEq, Eq, Structural)]
pub enum OldRow {
    /// Its key persists: a new row reuses it.
    Reused,
    /// Its key is gone: it leaves, playing its exit if it has one, or is disposed.
    Absent,
    /// An earlier old row carried the same key, so no new row can reach it: it is disposed.
    Repeat,
}

/// The fate of old row `j`.
pub open spec fn fate(old: Seq<u64>, keys: Seq<u64>, j: int) -> OldRow {
    if first_index(old, old[j], j) is Some {
        OldRow::Repeat
    } else if holds_key(keys, old[j]) {
        OldRow::Reused
    } else {
        OldRow::Absent
    }
}

/// The fate of each old row.
pub fn old_row_fates(old: &Vec<u64>, keys: &Vec<u64>) -> (r: Vec<OldRow>)
    ensures
        r@.len() == old@.len(),
        forall|j: int| 0 <= j < old@.len() ==> (#[trigger] r@[j]) == fate(old@, keys@, j),
{
    let mut r: Vec<OldRow> = Vec::new();
    let mut j: usize = 0;
    while j < old.len()
        invariant
            j <= old@.len(),
            r@.len() == j,
            forall|a: int| 0 <= a < j ==> (#[trigger] r@[a]) == fate(old@, keys@, a),
        decreases old@.len() - j,
    {
        let k = old[j];
        let f = if find_first(old, k, j).is_some() {
            OldRow::Repeat
        } else if find_first(keys, k, keys.len()).is_some() {
            OldRow::Reused
        } else {
            OldRow::Absent
        };
        r.push(f);
        j = j + 1;
    }
    r
}

/// An old row is reused exactly when some new row reuses it, and then by exactly one: the first new row carrying its key.
pub proof fn lemma_reused_rows_are_the_reused_ones(old: Seq<u64>, keys: Seq<u64>, j: int)
    requires
        0 <= j < old.len(),
    ensures
        fate(old, keys, j) == OldRow::Reused <==> exists|i: int| 0 <= i < keys.len() && #[trigger] reuse_of(old, keys, i) == Some(j),
        forall|i: int, i2: int| 0 <= i < keys.len() && 0 <= i2 < keys.len() && #[trigger] reuse_of(old, keys, i) == Some(j) && #[trigger] reuse_of(old, keys, i2) == Some(j) ==> i == i2,
{
    let k = old[j];
    lemma_first_index_found(old, k, j);
    lemma_first_index_found(keys, k, keys.len() as int);
    lemma_first_index_found(old, k, old.len() as int);
    if fate(old, keys, j) == OldRow::Reused {
        let i = first_index(keys, k, keys.len() as int)->0;
        lemma_first_index_absent(keys, k, i);
        lemma_first_index_stable(old, k, j, old.len() as int);
        assert(reuse_of(old, keys, i) == Some(j));
    }
    assert forall|i: int| 0 <= i < keys.len() && #[trigger] reuse_of(old, keys, i) == Some(j) implies fate(old, keys, j) == OldRow::Reused by {
        lemma_first_index_found(old, keys[i], old.len() as int);
        lemma_first_index_found(keys, keys[i], i);
        assert(keys[i] == k);
        lemma_first_index_found(old, k, j);
        if first_index(old, k, j) is Some {
            let a = first_index(old, k, j)->0;
            assert(old[a] == k);
        }
        lemma_first_index_stable(keys, k, i, keys.len() as int);
    }
    assert forall|i: int, i2: int| 0 <= i < keys.len() && 0 <= i2 < keys.len() && #[trigger] reuse_of(old, keys, i) == Some(j) && #[trigger] reuse_of(old, keys, i2) == Some(j) implies i == i2 by {
        lemma_first_index_found(old, keys[i], old.len() as int);
        lemma_first_index_found(old, keys[i2], old.len() as int);
        lemma_first_index_found(keys, keys[i], i);
        lemma_first_index_found(keys, keys[i2], i2);
        if i < i2 {
            assert(keys[i] == keys[i2]);
        } else if i2 < i {
            assert(keys[i] == keys[i2]);
        }
    }
}

/// A row of the list a reconcile commits: new row `i` of the pass, or old row `j` staying to play its exit.
#[derive(Clone, Copy, Debug, PartialEq, Eq, Structural)]
pub enum Row {
    New(usize),
    Leaving(usize),
}

/// Whether old row `j` stays to play its exit: its key is gone, and its row has an exit to play (`leaves[j]`, which the caller answers by starting the exit).
pub open spec fn departs(old: Seq<u64>, keys: Seq<u64>, leaves: Seq<bool>, j: int) -> bool {
    fate(old, keys, j) == OldRow::Absent && j < leaves.len() && leaves[j]
}

/// The key of the last old row before `j` whose key persists: the row a leaving row `j` followed, which it stays next to. `None` when no such row comes before it.
pub open spec fn anchor(old: Seq<u64>, keys: Seq<u64>, j: int) -> Option<u64>
    decreases j,
{
    if j <= 0 {
        None
    } else if holds_key(keys, old[j - 1]) {
        Some(old[j - 1])
    } else {
        anchor(old, keys, j - 1)
    }
}

/// The leaving rows among the first `n` old rows that followed `slot`, in their old order.
pub open spec fn group(old: Seq<u64>, keys: Seq<u64>, leaves: Seq<bool>, slot: Option<u64>, n: int) -> Seq<Row>
    decreases n,
{
    if n <= 0 {
        Seq::empty()
    } else {
        let earlier = group(old, keys, leaves, slot, n - 1);
        if departs(old, keys, leaves, n - 1) && anchor(old, keys, n - 1) == slot {
            earlier.push(Row::Leaving((n - 1) as usize))
        } else {
            earlier
        }
    }
}

/// The committed list up to new row `m`: the leaving rows that followed no persisting row first, then each new row followed by the leaving rows that followed its key, placed at the first row carrying that key.
pub open spec fn placed(old: Seq<u64>, keys: Seq<u64>, leaves: Seq<bool>, m: int) -> Seq<Row>
    decreases m,
{
    if m <= 0 {
        group(old, keys, leaves, None, old.len() as int)
    } else {
        let with_row = placed(old, keys, leaves, m - 1).push(Row::New((m - 1) as usize));
        if first_index(keys, keys[m - 1], m - 1) is Some {
            with_row
        } else {
            with_row + group(old, keys, leaves, Some(keys[m - 1]), old.len() as int)
        }
    }
}

fn same_slot(a: Option<u64>, b: Option<u64>) -> (r: bool)
    ensures
        r == (a == b),
{
    match (a, b) {
        (Some(x), Some(y)) => x == y,
        (None, None) => true,
        _ => false,
    }
}

fn append_group(
    out: &mut Vec<Row>,
    departing: &Vec<bool>,
    anchors: &Vec<Option<u64>>,
    slot: Option<u64>,
    Ghost(old_keys): Ghost<Seq<u64>>,
    Ghost(keys): Ghost<Seq<u64>>,
    Ghost(leaves): Ghost<Seq<bool>>,
)
    requires
        departing@.len() == old_keys.len(),
        anchors@.len() == old_keys.len(),
        forall|j: int| 0 <= j < old_keys.len() ==> #[trigger] departing@[j] == departs(old_keys, keys, leaves, j),
        forall|j: int| 0 <= j < old_keys.len() ==> #[trigger] anchors@[j] == anchor(old_keys, keys, j),
    ensures
        final(out)@ == old(out)@ + group(old_keys, keys, leaves, slot, old_keys.len() as int),
{
    let ghost start = out@;
    let mut j: usize = 0;
    while j < departing.len()
        invariant
            j <= departing@.len() == old_keys.len() == anchors@.len(),
            forall|a: int| 0 <= a < old_keys.len() ==> #[trigger] departing@[a] == departs(old_keys, keys, leaves, a),
            forall|a: int| 0 <= a < old_keys.len() ==> #[trigger] anchors@[a] == anchor(old_keys, keys, a),
            out@ == start + group(old_keys, keys, leaves, slot, j as int),
        decreases departing@.len() - j,
    {
        if departing[j] && same_slot(anchors[j], slot) {
            out.push(Row::Leaving(j));
            proof {
                assert(out@ =~= start + group(old_keys, keys, leaves, slot, j + 1));
            }
        }
        j = j + 1;
    }
}

/// The list a reconcile commits: every new row in order, with each old row that stays to play its exit placed right after the row it followed (or first, when it followed none), so it leaves from the place it held.
///
/// `leaves[j]` answers, for an old row whose key is gone, whether it has an exit to play; it is read for no other row.
pub fn place_departures(old: &Vec<u64>, keys: &Vec<u64>, leaves: &Vec<bool>) -> (r: Vec<Row>)
    ensures
        r@ == placed(old@, keys@, leaves@, keys@.len() as int),
{
    let fates = old_row_fates(old, keys);
    let mut departing: Vec<bool> = Vec::new();
    let mut anchors: Vec<Option<u64>> = Vec::new();
    let mut previous: Option<u64> = None;
    let mut j: usize = 0;
    while j < old.len()
        invariant
            j <= old@.len(),
            fates@.len() == old@.len(),
            forall|a: int| 0 <= a < old@.len() ==> (#[trigger] fates@[a]) == fate(old@, keys@, a),
            departing@.len() == j,
            anchors@.len() == j,
            previous == anchor(old@, keys@, j as int),
            forall|a: int| 0 <= a < j ==> #[trigger] departing@[a] == departs(old@, keys@, leaves@, a),
            forall|a: int| 0 <= a < j ==> #[trigger] anchors@[a] == anchor(old@, keys@, a),
        decreases old@.len() - j,
    {
        let absent = match fates[j] {
            OldRow::Absent => true,
            _ => false,
        };
        let leaving = absent && j < leaves.len() && leaves[j];
        departing.push(leaving);
        anchors.push(previous);
        if find_first(keys, old[j], keys.len()).is_some() {
            previous = Some(old[j]);
        }
        j = j + 1;
    }
    let mut out: Vec<Row> = Vec::new();
    append_group(&mut out, &departing, &anchors, None, Ghost(old@), Ghost(keys@), Ghost(leaves@));
    proof {
        assert(out@ =~= placed(old@, keys@, leaves@, 0));
    }
    let mut m: usize = 0;
    while m < keys.len()
        invariant
            m <= keys@.len(),
            departing@.len() == old@.len(),
            anchors@.len() == old@.len(),
            forall|a: int| 0 <= a < old@.len() ==> #[trigger] departing@[a] == departs(old@, keys@, leaves@, a),
            forall|a: int| 0 <= a < old@.len() ==> #[trigger] anchors@[a] == anchor(old@, keys@, a),
            out@ == placed(old@, keys@, leaves@, m as int),
        decreases keys@.len() - m,
    {
        out.push(Row::New(m));
        if find_first(keys, keys[m], m).is_none() {
            append_group(&mut out, &departing, &anchors, Some(keys[m]), Ghost(old@), Ghost(keys@), Ghost(leaves@));
        }
        m = m + 1;
    }
    out
}

/// The new rows of `rows`, in order.
pub open spec fn new_rows(rows: Seq<Row>) -> Seq<Row>
    decreases rows.len(),
{
    if rows.len() == 0 {
        Seq::empty()
    } else {
        let earlier = new_rows(rows.drop_last());
        if rows.last() is New {
            earlier.push(rows.last())
        } else {
            earlier
        }
    }
}

/// How many times `rows` holds `row`.
pub open spec fn times(rows: Seq<Row>, row: Row) -> nat
    decreases rows.len(),
{
    if rows.len() == 0 {
        0
    } else {
        times(rows.drop_last(), row) + if rows.last() == row {
            1nat
        } else {
            0nat
        }
    }
}

proof fn lemma_concat<A>(a: Seq<A>, b: Seq<A>)
    requires
        b.len() > 0,
    ensures
        (a + b).drop_last() == a + b.drop_last(),
        (a + b).last() == b.last(),
{
    assert((a + b).drop_last() =~= a + b.drop_last());
}

proof fn lemma_new_rows_concat(a: Seq<Row>, b: Seq<Row>)
    ensures
        new_rows(a + b) == new_rows(a) + new_rows(b),
    decreases b.len(),
{
    if b.len() == 0 {
        assert(a + b =~= a);
        assert(new_rows(a) + new_rows(b) =~= new_rows(a));
    } else {
        lemma_concat(a, b);
        lemma_new_rows_concat(a, b.drop_last());
        assert(new_rows(a + b) =~= new_rows(a) + new_rows(b));
    }
}

proof fn lemma_times_concat(a: Seq<Row>, b: Seq<Row>, row: Row)
    ensures
        times(a + b, row) == times(a, row) + times(b, row),
    decreases b.len(),
{
    if b.len() == 0 {
        assert(a + b =~= a);
    } else {
        lemma_concat(a, b);
        lemma_times_concat(a, b.drop_last(), row);
    }
}

proof fn lemma_group_has_no_new_rows(old: Seq<u64>, keys: Seq<u64>, leaves: Seq<bool>, slot: Option<u64>, n: int)
    ensures
        new_rows(group(old, keys, leaves, slot, n)) == Seq::<Row>::empty(),
        forall|i: usize| times(group(old, keys, leaves, slot, n), Row::New(i)) == 0,
    decreases n,
{
    if n > 0 {
        lemma_group_has_no_new_rows(old, keys, leaves, slot, n - 1);
        let g = group(old, keys, leaves, slot, n - 1);
        if departs(old, keys, leaves, n - 1) && anchor(old, keys, n - 1) == slot {
            assert(g.push(Row::Leaving((n - 1) as usize)).drop_last() == g);
        }
        assert forall|i: usize| times(group(old, keys, leaves, slot, n), Row::New(i)) == 0 by {
            assert(times(g, Row::New(i)) == 0);
        }
    }
}

proof fn lemma_group_times(old: Seq<u64>, keys: Seq<u64>, leaves: Seq<bool>, slot: Option<u64>, n: int, j: int)
    requires
        0 <= j < old.len() <= usize::MAX,
        n <= old.len(),
    ensures
        times(group(old, keys, leaves, slot, n), Row::Leaving(j as usize)) == if j < n && departs(old, keys, leaves, j) && anchor(old, keys, j) == slot {
            1nat
        } else {
            0nat
        },
    decreases n,
{
    if n > 0 {
        lemma_group_times(old, keys, leaves, slot, n - 1, j);
        let g = group(old, keys, leaves, slot, n - 1);
        if departs(old, keys, leaves, n - 1) && anchor(old, keys, n - 1) == slot {
            assert(g.push(Row::Leaving((n - 1) as usize)).drop_last() == g);
        }
    }
}

proof fn lemma_anchor_persists(old: Seq<u64>, keys: Seq<u64>, j: int)
    requires
        0 <= j <= old.len(),
    ensures
        anchor(old, keys, j) matches Some(k) ==> holds_key(keys, k),
    decreases j,
{
    if j > 0 {
        lemma_anchor_persists(old, keys, j - 1);
    }
}

/// The new rows keep their order: the committed list holds every new row of the pass, in the order of the pass, with only leaving rows between them.
pub proof fn lemma_new_rows_keep_their_order(old: Seq<u64>, keys: Seq<u64>, leaves: Seq<bool>, m: int)
    requires
        0 <= m <= keys.len(),
    ensures
        new_rows(placed(old, keys, leaves, m)) == Seq::new(m as nat, |i: int| Row::New(i as usize)),
    decreases m,
{
    if m == 0 {
        lemma_group_has_no_new_rows(old, keys, leaves, None, old.len() as int);
        assert(new_rows(placed(old, keys, leaves, 0)) =~= Seq::new(0, |i: int| Row::New(i as usize)));
    } else {
        lemma_new_rows_keep_their_order(old, keys, leaves, m - 1);
        let p = placed(old, keys, leaves, m - 1);
        let with_row = p.push(Row::New((m - 1) as usize));
        assert(with_row.drop_last() == p);
        if first_index(keys, keys[m - 1], m - 1) is None {
            let g = group(old, keys, leaves, Some(keys[m - 1]), old.len() as int);
            lemma_new_rows_concat(with_row, g);
            lemma_group_has_no_new_rows(old, keys, leaves, Some(keys[m - 1]), old.len() as int);
            assert(new_rows(with_row) + new_rows(g) =~= new_rows(with_row));
        }
        assert(new_rows(placed(old, keys, leaves, m)) =~= Seq::new(m as nat, |i: int| Row::New(i as usize)));
    }
}

/// Where the leaving row `j` stands among the first `m` new rows: placed once if its exit plays and the row it followed is placed by then, never otherwise.
proof fn lemma_leaving_row_times(old: Seq<u64>, keys: Seq<u64>, leaves: Seq<bool>, m: int, j: int)
    requires
        0 <= m <= keys.len(),
        0 <= j < old.len() <= usize::MAX,
    ensures
        times(placed(old, keys, leaves, m), Row::Leaving(j as usize)) == if departs(old, keys, leaves, j) && (anchor(old, keys, j) is None || (anchor(old, keys, j) matches Some(k) && first_index(keys, k, m) is Some)) {
            1nat
        } else {
            0nat
        },
    decreases m,
{
    let r = Row::Leaving(j as usize);
    if m == 0 {
        lemma_group_times(old, keys, leaves, None, old.len() as int, j);
    } else {
        lemma_leaving_row_times(old, keys, leaves, m - 1, j);
        let p = placed(old, keys, leaves, m - 1);
        let with_row = p.push(Row::New((m - 1) as usize));
        assert(with_row.drop_last() == p);
        assert(times(with_row, r) == times(p, r));
        let k = keys[m - 1];
        if first_index(keys, k, m - 1) is None {
            let g = group(old, keys, leaves, Some(k), old.len() as int);
            lemma_times_concat(with_row, g, r);
            lemma_group_times(old, keys, leaves, Some(k), old.len() as int, j);
        }
    }
}

/// Each old row that stays to play its exit is placed exactly once, and no other old row is placed at all.
pub proof fn lemma_each_leaving_row_is_placed_once(old: Seq<u64>, keys: Seq<u64>, leaves: Seq<bool>, j: int)
    requires
        0 <= j < old.len() <= usize::MAX,
    ensures
        times(placed(old, keys, leaves, keys.len() as int), Row::Leaving(j as usize)) == if departs(old, keys, leaves, j) {
            1nat
        } else {
            0nat
        },
{
    lemma_leaving_row_times(old, keys, leaves, keys.len() as int, j);
    lemma_anchor_persists(old, keys, j);
}

proof fn lemma_no_group_without_exits(old: Seq<u64>, keys: Seq<u64>, leaves: Seq<bool>, slot: Option<u64>, n: int)
    requires
        forall|j: int| 0 <= j < leaves.len() ==> !leaves[j],
    ensures
        group(old, keys, leaves, slot, n) == Seq::<Row>::empty(),
    decreases n,
{
    if n > 0 {
        lemma_no_group_without_exits(old, keys, leaves, slot, n - 1);
    }
}

proof fn lemma_placed_without_exits(old: Seq<u64>, keys: Seq<u64>, leaves: Seq<bool>, m: int)
    requires
        0 <= m <= keys.len(),
        forall|j: int| 0 <= j < leaves.len() ==> !leaves[j],
    ensures
        placed(old, keys, leaves, m) == Seq::new(m as nat, |i: int| Row::New(i as usize)),
    decreases m,
{
    if m == 0 {
        lemma_no_group_without_exits(old, keys, leaves, None, old.len() as int);
        assert(placed(old, keys, leaves, 0) =~= Seq::new(0, |i: int| Row::New(i as usize)));
    } else {
        lemma_placed_without_exits(old, keys, leaves, m - 1);
        lemma_no_group_without_exits(old, keys, leaves, Some(keys[m - 1]), old.len() as int);
        let with_row = placed(old, keys, leaves, m - 1).push(Row::New((m - 1) as usize));
        assert(with_row + Seq::<Row>::empty() =~= with_row);
        assert(placed(old, keys, leaves, m) =~= Seq::new(m as nat, |i: int| Row::New(i as usize)));
    }
}

/// A whole pass of a list with no exits to play: the committed list is the pass's rows, in order and nothing else; each row reuses the old row carrying its identity when there is one that no earlier row took, and is built otherwise; and each old row is either reused by exactly one row or disposed, never both.
pub proof fn lemma_a_pass_without_exits(old: Seq<u64>, keys: Seq<u64>, leaves: Seq<bool>)
    requires
        old.len() <= usize::MAX,
        forall|j: int| 0 <= j < leaves.len() ==> !leaves[j],
    ensures
        placed(old, keys, leaves, keys.len() as int) == Seq::new(keys.len(), |i: int| Row::New(i as usize)),
        forall|i: int| 0 <= i < keys.len() ==> (#[trigger] reuse_of(old, keys, i) matches Some(j) ==> 0 <= j < old.len() && old[j] == keys[i]),
        forall|i: int|
            0 <= i < keys.len() ==> (#[trigger] reuse_of(old, keys, i) is None <==> ((exists|a: int| 0 <= a < i && keys[a] == keys[i]) || !old.contains(keys[i]))),
        forall|j: int|
            0 <= j < old.len() ==> ((exists|i: int| 0 <= i < keys.len() && #[trigger] reuse_of(old, keys, i) == Some(j)) <==> !disposed(old, keys, leaves, j)),
{
    lemma_placed_without_exits(old, keys, leaves, keys.len() as int);
    assert forall|i: int| 0 <= i < keys.len() implies (#[trigger] reuse_of(old, keys, i) matches Some(j) ==> 0 <= j < old.len() && old[j] == keys[i]) && (reuse_of(old, keys, i) is None <==> ((exists|a: int| 0 <= a < i && keys[a] == keys[i]) || !old.contains(keys[i]))) by {
        lemma_first_index_found(keys, keys[i], i);
        lemma_first_index_found(old, keys[i], old.len() as int);
        match first_index(keys, keys[i], i) {
            Some(a) => {
                assert(0 <= a < i && keys[a] == keys[i]);
            },
            None => {},
        }
        match first_index(old, keys[i], old.len() as int) {
            Some(j) => {
                assert(old[j] == keys[i]);
                assert(old.contains(keys[i]));
            },
            None => {},
        }
        if old.contains(keys[i]) {
            let j = choose|j: int| 0 <= j < old.len() && old[j] == keys[i];
            assert(old[j] == keys[i]);
        }
    }
    assert forall|j: int| 0 <= j < old.len() implies ((exists|i: int| 0 <= i < keys.len() && #[trigger] reuse_of(old, keys, i) == Some(j)) <==> !disposed(old, keys, leaves, j)) by {
        lemma_every_old_row_meets_one_fate(old, keys, leaves, j);
        lemma_each_leaving_row_is_placed_once(old, keys, leaves, j);
    }
}

proof fn lemma_holds_key_is_contains(s: Seq<u64>, k: u64)
    ensures
        holds_key(s, k) == s.contains(k),
{
    lemma_first_index_found(s, k, s.len() as int);
    if s.contains(k) {
        let a = choose|a: int| 0 <= a < s.len() && s[a] == k;
        assert(s[a] == k);
    }
}

proof fn lemma_anchor_is_nearest(old: Seq<u64>, keys: Seq<u64>, j: int, p: int)
    requires
        0 <= p < j <= old.len(),
        keys.contains(old[p]),
        forall|q: int| p < q < j ==> !keys.contains(#[trigger] old[q]),
    ensures
        anchor(old, keys, j) == Some(old[p]),
    decreases j,
{
    lemma_holds_key_is_contains(keys, old[j - 1]);
    if j - 1 > p {
        lemma_anchor_is_nearest(old, keys, j - 1, p);
    }
}

proof fn lemma_anchor_none(old: Seq<u64>, keys: Seq<u64>, j: int)
    requires
        0 <= j <= old.len(),
        forall|q: int| 0 <= q < j ==> !keys.contains(#[trigger] old[q]),
    ensures
        anchor(old, keys, j) is None,
    decreases j,
{
    if j > 0 {
        lemma_holds_key_is_contains(keys, old[j - 1]);
        lemma_anchor_none(old, keys, j - 1);
    }
}

proof fn lemma_group_shape(old: Seq<u64>, keys: Seq<u64>, leaves: Seq<bool>, slot: Option<u64>, n: int, j: int)
    requires
        0 <= j < n,
        departs(old, keys, leaves, j),
        anchor(old, keys, j) == slot,
    ensures
        forall|v: int| 0 <= v < group(old, keys, leaves, slot, n).len() ==> #[trigger] group(old, keys, leaves, slot, n)[v] is Leaving,
        exists|u: int| 0 <= u < group(old, keys, leaves, slot, n).len() && group(old, keys, leaves, slot, n)[u] == Row::Leaving(j as usize),
    decreases n,
{
    lemma_group_all_leaving(old, keys, leaves, slot, n);
    let g = group(old, keys, leaves, slot, n - 1);
    if j == n - 1 {
        let u = g.len() as int;
        assert(group(old, keys, leaves, slot, n)[u] == Row::Leaving(j as usize));
    } else {
        lemma_group_shape(old, keys, leaves, slot, n - 1, j);
        let u = choose|u: int| 0 <= u < g.len() && g[u] == Row::Leaving(j as usize);
        assert(group(old, keys, leaves, slot, n)[u] == Row::Leaving(j as usize));
    }
}

proof fn lemma_group_all_leaving(old: Seq<u64>, keys: Seq<u64>, leaves: Seq<bool>, slot: Option<u64>, n: int)
    ensures
        forall|v: int| 0 <= v < group(old, keys, leaves, slot, n).len() ==> #[trigger] group(old, keys, leaves, slot, n)[v] is Leaving,
    decreases n,
{
    if n > 0 {
        lemma_group_all_leaving(old, keys, leaves, slot, n - 1);
    }
}

proof fn lemma_placed_grows(old: Seq<u64>, keys: Seq<u64>, leaves: Seq<bool>, m: int, m2: int)
    requires
        0 <= m <= m2 <= keys.len(),
    ensures
        placed(old, keys, leaves, m).len() <= placed(old, keys, leaves, m2).len(),
        forall|v: int| 0 <= v < placed(old, keys, leaves, m).len() ==> #[trigger] placed(old, keys, leaves, m2)[v] == placed(old, keys, leaves, m)[v],
    decreases m2,
{
    if m2 > m {
        lemma_placed_grows(old, keys, leaves, m, m2 - 1);
    }
}

/// Whether old row `j` stays to play its exit, said plainly: it has an exit to play, no earlier old row carries its key, and no new row does.
pub open spec fn stays_to_leave(old: Seq<u64>, keys: Seq<u64>, leaves: Seq<bool>, j: int) -> bool {
    &&& 0 <= j < old.len()
    &&& j < leaves.len()
    &&& leaves[j]
    &&& !keys.contains(old[j])
    &&& forall|q: int| 0 <= q < j ==> old[q] != old[j]
}

proof fn lemma_stays_to_leave_departs(old: Seq<u64>, keys: Seq<u64>, leaves: Seq<bool>, j: int)
    requires
        stays_to_leave(old, keys, leaves, j),
    ensures
        departs(old, keys, leaves, j),
{
    lemma_first_index_absent(old, old[j], j);
    lemma_holds_key_is_contains(keys, old[j]);
}

/// A leaving row leaves from the place it held: placed right after the new row carrying the key of the nearest old row before it that persists (`p`), with only other leaving rows between them. The nearest, not any earlier one: for old rows `[a, b, c, d]`, new rows `[a, c]` and only `d` leaving, the list is `[a, c, d]`.
pub proof fn lemma_a_leaving_row_stays_after_the_row_it_followed(old: Seq<u64>, keys: Seq<u64>, leaves: Seq<bool>, j: int, p: int, i: int)
    requires
        old.len() <= usize::MAX,
        stays_to_leave(old, keys, leaves, j),
        0 <= p < j,
        keys.contains(old[p]),
        forall|q: int| p < q < j ==> !keys.contains(#[trigger] old[q]),
        0 <= i < keys.len(),
        keys[i] == old[p],
        forall|a: int| 0 <= a < i ==> keys[a] != old[p],
    ensures
        ({
            let r = placed(old, keys, leaves, keys.len() as int);
            exists|t: int, u: int|
                0 <= t < u < r.len() && r[t] == Row::New(i as usize) && r[u] == Row::Leaving(j as usize) && forall|v: int|
                    t < v < u ==> (#[trigger] r[v]) is Leaving
        }),
{
    let r = placed(old, keys, leaves, keys.len() as int);
    lemma_stays_to_leave_departs(old, keys, leaves, j);
    lemma_anchor_is_nearest(old, keys, j, p);
    lemma_first_index_absent(keys, keys[i], i);
    let slot = Some(keys[i]);
    let g = group(old, keys, leaves, slot, old.len() as int);
    lemma_group_shape(old, keys, leaves, slot, old.len() as int, j);
    let before = placed(old, keys, leaves, i);
    let upto = placed(old, keys, leaves, i + 1);
    assert(upto == before.push(Row::New(i as usize)) + g);
    lemma_placed_grows(old, keys, leaves, i + 1, keys.len() as int);
    let t = before.len() as int;
    let u0 = choose|u: int| 0 <= u < g.len() && g[u] == Row::Leaving(j as usize);
    let u = t + 1 + u0;
    assert(upto[t] == Row::New(i as usize));
    assert(upto[u] == g[u0]);
    assert(r[t] == upto[t]);
    assert(r[u] == upto[u]);
    assert forall|v: int| t < v < u implies (#[trigger] r[v]) is Leaving by {
        assert(r[v] == upto[v]);
        assert(upto[v] == g[v - t - 1]);
    }
}

/// A leaving row that followed no persisting row comes first: ahead of every new row, with only other leaving rows before it.
pub proof fn lemma_a_leaving_row_that_followed_none_comes_first(old: Seq<u64>, keys: Seq<u64>, leaves: Seq<bool>, j: int)
    requires
        old.len() <= usize::MAX,
        stays_to_leave(old, keys, leaves, j),
        forall|q: int| 0 <= q < j ==> !keys.contains(#[trigger] old[q]),
    ensures
        ({
            let r = placed(old, keys, leaves, keys.len() as int);
            exists|u: int| 0 <= u < r.len() && r[u] == Row::Leaving(j as usize) && forall|v: int| 0 <= v < u ==> (#[trigger] r[v]) is Leaving
        }),
{
    let r = placed(old, keys, leaves, keys.len() as int);
    lemma_stays_to_leave_departs(old, keys, leaves, j);
    lemma_anchor_none(old, keys, j);
    let g = group(old, keys, leaves, None, old.len() as int);
    lemma_group_shape(old, keys, leaves, None, old.len() as int, j);
    lemma_placed_grows(old, keys, leaves, 0, keys.len() as int);
    let u = choose|u: int| 0 <= u < g.len() && g[u] == Row::Leaving(j as usize);
    assert(r[u] == g[u]);
    assert forall|v: int| 0 <= v < u implies (#[trigger] r[v]) is Leaving by {
        assert(r[v] == g[v]);
    }
}

/// Whether old row `j` is disposed by the reconcile: a repeat no new row can reach, or a row whose key is gone and which has no exit to play.
pub open spec fn disposed(old: Seq<u64>, keys: Seq<u64>, leaves: Seq<bool>, j: int) -> bool {
    fate(old, keys, j) == OldRow::Repeat || (fate(old, keys, j) == OldRow::Absent && !departs(old, keys, leaves, j))
}

/// Which old rows the reconcile disposes once it has committed.
pub fn disposed_rows(old: &Vec<u64>, keys: &Vec<u64>, leaves: &Vec<bool>) -> (r: Vec<bool>)
    ensures
        r@.len() == old@.len(),
        forall|j: int| 0 <= j < old@.len() ==> (#[trigger] r@[j]) == disposed(old@, keys@, leaves@, j),
{
    let fates = old_row_fates(old, keys);
    let mut r: Vec<bool> = Vec::new();
    let mut j: usize = 0;
    while j < old.len()
        invariant
            j <= old@.len() == fates@.len(),
            forall|a: int| 0 <= a < old@.len() ==> (#[trigger] fates@[a]) == fate(old@, keys@, a),
            r@.len() == j,
            forall|a: int| 0 <= a < j ==> (#[trigger] r@[a]) == disposed(old@, keys@, leaves@, a),
        decreases old@.len() - j,
    {
        let gone = match fates[j] {
            OldRow::Repeat => true,
            OldRow::Absent => !(j < leaves.len() && leaves[j]),
            OldRow::Reused => false,
        };
        r.push(gone);
        j = j + 1;
    }
    r
}

/// Every old row meets exactly one fate: reused by exactly one new row, kept in the committed list exactly once to play its exit, or disposed. None is lost and none is kept twice.
pub proof fn lemma_every_old_row_meets_one_fate(old: Seq<u64>, keys: Seq<u64>, leaves: Seq<bool>, j: int)
    requires
        0 <= j < old.len() <= usize::MAX,
    ensures
        ({
            let reused = exists|i: int| 0 <= i < keys.len() && #[trigger] reuse_of(old, keys, i) == Some(j);
            let kept = times(placed(old, keys, leaves, keys.len() as int), Row::Leaving(j as usize)) == 1;
            let gone = disposed(old, keys, leaves, j);
            &&& (reused || kept || gone)
            &&& !(reused && kept)
            &&& !(reused && gone)
            &&& !(kept && gone)
        }),
{
    lemma_reused_rows_are_the_reused_ones(old, keys, j);
    lemma_each_leaving_row_is_placed_once(old, keys, leaves, j);
}

/// Which rows of a committed list have finished leaving: the ones still leaving whose key is among `done`, the keys whose exits have settled.
pub fn departed_rows(keys: &Vec<u64>, leaving: &Vec<bool>, done: &Vec<u64>) -> (r: Vec<bool>)
    requires
        leaving@.len() == keys@.len(),
    ensures
        r@.len() == keys@.len(),
        forall|i: int| 0 <= i < keys@.len() ==> (#[trigger] r@[i]) == (leaving@[i] && done@.contains(keys@[i])),
{
    let mut r: Vec<bool> = Vec::new();
    let mut i: usize = 0;
    while i < keys.len()
        invariant
            i <= keys@.len() == leaving@.len(),
            r@.len() == i,
            forall|a: int| 0 <= a < i ==> (#[trigger] r@[a]) == (leaving@[a] && done@.contains(keys@[a])),
        decreases keys@.len() - i,
    {
        let gone = leaving[i] && find_first(done, keys[i], done.len()).is_some();
        proof {
            lemma_first_index_found(done@, keys@[i as int], done@.len() as int);
            if done@.contains(keys@[i as int]) {
                let a = choose|a: int| 0 <= a < done@.len() && done@[a] == keys@[i as int];
                assert(done@[a] == keys@[i as int]);
            }
        }
        r.push(gone);
        i = i + 1;
    }
    r
}

/// Which rows take part in the list's layout. A list that animates its layout (`closes_gaps`) leaves a leaving row out, so the rows after it close the gap while it plays its exit where it was.
pub fn flow_mask(leaving: &Vec<bool>, closes_gaps: bool) -> (r: Vec<bool>)
    ensures
        r@.len() == leaving@.len(),
        forall|i: int| 0 <= i < leaving@.len() ==> (#[trigger] r@[i]) == !(closes_gaps && leaving@[i]),
{
    let mut r: Vec<bool> = Vec::new();
    let mut i: usize = 0;
    while i < leaving.len()
        invariant
            i <= leaving@.len(),
            r@.len() == i,
            forall|a: int| 0 <= a < i ==> (#[trigger] r@[a]) == !(closes_gaps && leaving@[a]),
        decreases leaving@.len() - i,
    {
        r.push(!(closes_gaps && leaving[i]));
        i = i + 1;
    }
    r
}

/// Whether a list is in the middle of a reconcile, and the rows whose exits finished meanwhile.
///
/// Exits that finish while a reconcile is building are only noted, since that reconcile is about to commit a list built from the rows as they were; they are handed back once it has committed.
pub struct ListPhase {
    reconciling: bool,
    departed: Vec<u64>,
}

impl ListPhase {
    /// Whether a reconcile is building.
    pub closed spec fn is_reconciling(&self) -> bool {
        self.reconciling
    }

    /// The keys noted while it builds, in the order their exits finished.
    pub closed spec fn noted(&self) -> Seq<u64> {
        self.departed@
    }

    /// Idle, nothing noted.
    pub fn new() -> (r: Self)
        ensures
            !r.is_reconciling(),
            r.noted() == Seq::<u64>::empty(),
    {
        ListPhase { reconciling: false, departed: Vec::new() }
    }

    /// A reconcile starts building.
    pub fn begin(&mut self)
        ensures
            final(self).is_reconciling(),
            final(self).noted() == old(self).noted(),
    {
        self.reconciling = true;
    }

    /// Exits finished for the keys `done`. Answers whether the caller is to drop those rows now; mid-reconcile they are noted instead.
    pub fn exits_finished(&mut self, done: &Vec<u64>) -> (now: bool)
        ensures
            now == !old(self).is_reconciling(),
            final(self).is_reconciling() == old(self).is_reconciling(),
            final(self).noted() == if now {
                old(self).noted()
            } else {
                old(self).noted() + done@
            },
    {
        if !self.reconciling {
            return true;
        }
        let mut i: usize = 0;
        let ghost start = self.departed@;
        while i < done.len()
            invariant
                i <= done@.len(),
                self.reconciling,
                self.departed@ == start + done@.subrange(0, i as int),
            decreases done@.len() - i,
        {
            self.departed.push(done[i]);
            proof {
                assert(self.departed@ =~= start + done@.subrange(0, i + 1));
            }
            i = i + 1;
        }
        proof {
            assert(done@.subrange(0, done@.len() as int) =~= done@);
        }
        false
    }

    /// The reconcile has committed (or unwound): idle again, handing back what was noted meanwhile, for the caller to drop now.
    pub fn finish(&mut self) -> (noted: Vec<u64>)
        ensures
            !final(self).is_reconciling(),
            final(self).noted() == Seq::<u64>::empty(),
            noted@ == old(self).noted(),
    {
        self.reconciling = false;
        let mut taken: Vec<u64> = Vec::new();
        std::mem::swap(&mut taken, &mut self.departed);
        taken
    }
}

/// What a reconcile pass leaves once it ends: the list now committed, the leaving rows turned back, and the owners of the rows to free.
pub struct PassEnd {
    /// The identities of the rows of the committed list, in order.
    pub list: Vec<u64>,
    /// The reused rows that were leaving, turned back now that every row has built.
    pub come_back: Vec<u64>,
    /// The owners of rows built by the pass that are freed with it.
    pub freed: Vec<u64>,
}

/// One reconcile pass, in the order the list does its work: every row is reused or built first, and only then is the pass kept, committing the new list and turning back the leaving rows it reuses, or abandoned, leaving the committed list as it stood and freeing the rows it had built.
pub struct ReconcilePass {
    committed: Vec<u64>,
    rows: Vec<u64>,
    built: Vec<u64>,
    returning: Vec<u64>,
}

impl ReconcilePass {
    /// The list as committed before the pass.
    pub closed spec fn committed(&self) -> Seq<u64> {
        self.committed@
    }

    /// The identities of the rows the pass has placed so far, in order.
    pub closed spec fn rows(&self) -> Seq<u64> {
        self.rows@
    }

    /// The owners of the rows the pass has built so far.
    pub closed spec fn built(&self) -> Seq<u64> {
        self.built@
    }

    /// The reused rows that were leaving, waiting for the pass to be kept before they come back.
    pub closed spec fn returning(&self) -> Seq<u64> {
        self.returning@
    }

    /// A pass over a list committed as `committed`: nothing placed, built or waiting yet.
    pub fn start(committed: Vec<u64>) -> (r: Self)
        ensures
            r.committed() == committed@,
            r.rows() == Seq::<u64>::empty(),
            r.built() == Seq::<u64>::empty(),
            r.returning() == Seq::<u64>::empty(),
    {
        ReconcilePass { committed, rows: Vec::new(), built: Vec::new(), returning: Vec::new() }
    }

    /// The next row reuses the old row known as `id`; `leaving` tells whether that row was playing its exit, in which case it waits to come back until the pass is kept.
    pub fn reuse(&mut self, id: u64, leaving: bool)
        ensures
            final(self).committed() == old(self).committed(),
            final(self).rows() == old(self).rows().push(id),
            final(self).built() == old(self).built(),
            final(self).returning() == if leaving {
                old(self).returning().push(id)
            } else {
                old(self).returning()
            },
    {
        self.rows.push(id);
        if leaving {
            self.returning.push(id);
        }
    }

    /// The next row, known as `id`, was built afresh, under `owner`.
    pub fn build(&mut self, id: u64, owner: u64)
        ensures
            final(self).committed() == old(self).committed(),
            final(self).rows() == old(self).rows().push(id),
            final(self).built() == old(self).built().push(owner),
            final(self).returning() == old(self).returning(),
    {
        self.rows.push(id);
        self.built.push(owner);
    }

    /// Every row has built: the new list is committed, the leaving rows it reuses come back, and nothing is freed.
    pub fn keep(self) -> (r: PassEnd)
        ensures
            r.list@ == self.rows(),
            r.come_back@ == self.returning(),
            r.freed@ == Seq::<u64>::empty(),
    {
        PassEnd { list: self.rows, come_back: self.returning, freed: Vec::new() }
    }

    /// A row failed to build: the committed list stands, no leaving row comes back, and the rows the pass had built are freed.
    pub fn abandon(self) -> (r: PassEnd)
        ensures
            r.list@ == self.committed(),
            r.come_back@ == Seq::<u64>::empty(),
            r.freed@ == self.built(),
    {
        PassEnd { list: self.committed, come_back: Vec::new(), freed: self.built }
    }
}

/// A row reuses the first old row carrying its identity, and only the first new row carrying an identity reuses anything: `reuse_of(old, keys, i) == Some(j)` exactly when `old[j]` is the first old entry equal to `keys[i]` and no new row before `i` carries `keys[i]`.
pub proof fn lemma_a_row_reuses_the_first_old_row_with_its_id(old: Seq<u64>, keys: Seq<u64>, i: int, j: int)
    requires
        0 <= i < keys.len(),
        0 <= j < old.len(),
    ensures
        reuse_of(old, keys, i) == Some(j) <==> (old[j] == keys[i] && (forall|q: int| 0 <= q < j ==> old[q] != keys[i]) && (forall|a: int|
            0 <= a < i ==> keys[a] != keys[i])),
{
    lemma_first_index_found(keys, keys[i], i);
    lemma_first_index_found(old, keys[i], old.len() as int);
    if old[j] == keys[i] && (forall|q: int| 0 <= q < j ==> old[q] != keys[i]) {
        lemma_first_index_stable(old, keys[i], j, old.len() as int);
    }
    if forall|a: int| 0 <= a < i ==> keys[a] != keys[i] {
        lemma_first_index_absent(keys, keys[i], i);
    }
}

} // verus!
