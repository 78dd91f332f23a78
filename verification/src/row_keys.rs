//! [`Occurrences`]: the identity a reconcile gives each row, unique within one pass even when the source repeats a key; and [`index_by_key`], the previous pass's rows by key.

use vstd::prelude::*;

use std::collections::HashMap;
use std::collections::hash_map::DefaultHasher;
use std::hash::Hasher;
use vstd::std_specs::hash::DefaultHasherAdditionalSpecFns;

verus! {

broadcast use vstd::std_specs::hash::group_hash_axioms;

/// The two orders a machine can lay the bytes of an integer out in.
#[derive(Clone, Copy, Debug, PartialEq, Eq, Structural)]
pub enum ByteOrder {
    /// Least significant byte first.
    Little,
    /// Most significant byte first.
    Big,
}

/// The eight bytes of `x`, least significant first.
pub open spec fn le_bytes(x: u64) -> Seq<u8> {
    Seq::new(8, |i: int| ((x >> (8 * i) as u64) & 0xff) as u8)
}

/// The eight bytes of `x`, most significant first.
pub open spec fn be_bytes(x: u64) -> Seq<u8> {
    Seq::new(8, |i: int| ((x >> (8 * (7 - i)) as u64) & 0xff) as u8)
}

/// The eight bytes of `x` in `order`: what `u64::hash` writes into a hasher on a machine of that order.
pub open spec fn bytes_in(order: ByteOrder, x: u64) -> Seq<u8> {
    match order {
        ByteOrder::Little => le_bytes(x),
        ByteOrder::Big => be_bytes(x),
    }
}

/// `u64::to_ne_bytes`, as a `Vec`: the memory representation of `x` in the machine's byte order. Claims it is `x`'s bytes in one of the two orders; which one rests on the machine and is left unsaid.
#[verifier::external_body]
fn native_bytes(x: u64) -> (r: Vec<u8>)
    ensures
        r@ == le_bytes(x) || r@ == be_bytes(x),
{
    x.to_ne_bytes().to_vec()
}

/// The byte order of the machine this runs on, read off the representation of 1. Which one it is rests on the machine; a caller that needs the same identities from pass to pass reads it once and hands it to [`Occurrences::with_order`].
pub fn native_byte_order() -> ByteOrder {
    let one = native_bytes(1);
    assert(((1u64 >> 0u64) & 0xff) as u8 == 1u8) by (bit_vector);
    assert(((1u64 >> 56u64) & 0xff) as u8 == 0u8) by (bit_vector);
    assert(le_bytes(1)[0] == 1u8);
    assert(be_bytes(1)[0] == 0u8);
    if one[0] == 1 {
        ByteOrder::Little
    } else {
        ByteOrder::Big
    }
}

/// The bytes of `x` in `order`.
fn bytes_of(order: ByteOrder, x: u64) -> (r: Vec<u8>)
    ensures
        r@ == bytes_in(order, x),
{
    let mut r: Vec<u8> = Vec::new();
    let mut i: u64 = 0;
    while i < 8
        invariant
            i <= 8,
            r@.len() == i,
            forall|j: int|
                0 <= j < i ==> r@[j] == (match order {
                    ByteOrder::Little => ((x >> (8 * j) as u64) & 0xff) as u8,
                    ByteOrder::Big => ((x >> (8 * (7 - j)) as u64) & 0xff) as u8,
                }),
        decreases 8 - i,
    {
        let shift: u64 = match order {
            ByteOrder::Little => 8 * i,
            ByteOrder::Big => 8 * (7 - i),
        };
        let byte = ((x >> shift) & 0xff) as u8;
        r.push(byte);
        i = i + 1;
    }
    assert(r@ =~= bytes_in(order, x));
    r
}

/// The key the `occurrence`-th repeat of `key` in one pass is known by, `occurrence` counting from 1, on a machine of byte order `order`: std's default SipHash of the pair, each half written as `u64::hash` writes it.
pub open spec fn occurrence_hash(order: ByteOrder, key: u64, occurrence: u64) -> u64 {
    DefaultHasher::spec_finish(seq![bytes_in(order, key), bytes_in(order, occurrence)])
}

/// The identity of the item that is the `seen`-th to carry `key` in a pass, `seen` counting from 0: the key itself the first time, a key derived from it and from how many came before every later time.
pub open spec fn identity(order: ByteOrder, key: u64, seen: u64) -> u64 {
    if seen == 0 {
        key
    } else {
        occurrence_hash(order, key, seen)
    }
}

fn hash_occurrence(order: ByteOrder, key: u64, occurrence: u64) -> (r: u64)
    ensures
        r == occurrence_hash(order, key, occurrence),
{
    let mut h = DefaultHasher::new();
    let k = bytes_of(order, key);
    let o = bytes_of(order, occurrence);
    h.write(k.as_slice());
    h.write(o.as_slice());
    let r = h.finish();
    assert(h@ =~= seq![bytes_in(order, key), bytes_in(order, occurrence)]);
    r
}

/// Tells apart the items of one pass that name the same key: a repeated key would otherwise name several rows at once, leaking all but one on every pass, so each later occurrence gets a key derived from how many came before it.
pub struct Occurrences {
    seen: HashMap<u64, u64>,
    order: ByteOrder,
}

impl View for Occurrences {
    type V = Map<u64, u64>;

    /// How many items of this pass have carried each key so far.
    closed spec fn view(&self) -> Map<u64, u64> {
        self.seen@
    }
}

/// How many items have carried `key` so far, in counts `seen`.
pub open spec fn seen_count(seen: Map<u64, u64>, key: u64) -> u64 {
    if seen.contains_key(key) {
        seen[key]
    } else {
        0
    }
}

/// A pass that has seen no key.
pub open spec fn nothing_seen() -> Map<u64, u64> {
    Map::empty()
}

impl Occurrences {
    /// The byte order of the machine, in which keys are hashed.
    pub closed spec fn order(&self) -> ByteOrder {
        self.order
    }

    /// A pass that has seen nothing yet, hashing in the machine's byte order.
    pub fn new() -> (r: Self)
        ensures
            r@ == nothing_seen(),
    {
        Occurrences::with_order(native_byte_order())
    }

    /// A pass that has seen nothing yet, hashing in byte order `order`.
    pub fn with_order(order: ByteOrder) -> (r: Self)
        ensures
            r@ == nothing_seen(),
            r.order() == order,
    {
        Occurrences { seen: HashMap::new(), order }
    }

    /// The identity of the next item carrying `key`, counting it.
    pub fn identify(&mut self, key: u64) -> (r: u64)
        requires
            seen_count(old(self)@, key) < u64::MAX,
        ensures
            r == identity(old(self).order(), key, seen_count(old(self)@, key)),
            final(self).order() == old(self).order(),
            final(self)@ == old(self)@.insert(key, (seen_count(old(self)@, key) + 1) as u64),
    {
        let occurrence = match self.seen.get(&key) {
            Some(n) => *n,
            None => 0,
        };
        self.seen.insert(key, occurrence + 1);
        if occurrence == 0 {
            return key;
        }
        hash_occurrence(self.order, key, occurrence)
    }
}

/// The rows of the first `n` pairs of `keys` and `rows` indexed by key, the first row to carry a key keeping it.
pub open spec fn indexed<T>(keys: Seq<u64>, rows: Seq<T>, n: int) -> Map<u64, T>
    decreases n,
{
    if n <= 0 {
        Map::empty()
    } else {
        let earlier = indexed(keys, rows, n - 1);
        if earlier.contains_key(keys[n - 1]) {
            earlier
        } else {
            earlier.insert(keys[n - 1], rows[n - 1])
        }
    }
}

/// The rows of the first `n` pairs whose key an earlier row already took, in order.
pub open spec fn strays<T>(keys: Seq<u64>, rows: Seq<T>, n: int) -> Seq<T>
    decreases n,
{
    if n <= 0 {
        Seq::empty()
    } else {
        let earlier = strays(keys, rows, n - 1);
        if indexed(keys, rows, n - 1).contains_key(keys[n - 1]) {
            earlier.push(rows[n - 1])
        } else {
            earlier
        }
    }
}

/// How many pairs `keys` and `rows` make.
pub open spec fn pairs(a: int, b: int) -> int {
    if a < b {
        a
    } else {
        b
    }
}

/// Indexes the previous pass's rows by key, handing back any row whose key another already took so the caller disposes it rather than losing track of it. Pairs past the end of the shorter of the two lists are not read.
pub fn index_by_key<T>(keys: Vec<u64>, rows: Vec<T>) -> (r: (HashMap<u64, T>, Vec<T>))
    ensures
        r.0@ == indexed(keys@, rows@, pairs(keys@.len() as int, rows@.len() as int)),
        r.1@ == strays(keys@, rows@, pairs(keys@.len() as int, rows@.len() as int)),
{
    let mut indexed_rows: HashMap<u64, T> = HashMap::new();
    let mut stray_rows: Vec<T> = Vec::new();
    let ghost all_rows = rows@;
    let n = if keys.len() < rows.len() { keys.len() } else { rows.len() };
    let mut i: usize = 0;
    for row in it: rows.into_iter()
        invariant
            it.seq() == all_rows,
            n == pairs(keys@.len() as int, all_rows.len() as int),
            i <= n,
            it.index() <= n ==> i == it.index(),
            it.index() > n ==> i == n,
            indexed_rows@ == indexed(keys@, all_rows, i as int),
            stray_rows@ == strays(keys@, all_rows, i as int),
    {
        if i < n {
            let k = keys[i];
            if indexed_rows.contains_key(&k) {
                stray_rows.push(row);
            } else {
                indexed_rows.insert(k, row);
            }
            i = i + 1;
        }
    }
    (indexed_rows, stray_rows)
}

/// The first item of a pass to carry a key is known by the key itself, so a list whose keys never repeat reconciles by its keys unchanged.
pub proof fn lemma_first_occurrence_keeps_its_key(order: ByteOrder, key: u64)
    ensures
        identity(order, key, 0) == key,
{
}

/// A row is either indexed or handed back, never lost: every key of the pairs is indexed, by its first row.
pub proof fn lemma_every_key_is_indexed<T>(keys: Seq<u64>, rows: Seq<T>, n: int, j: int)
    requires
        0 <= j < n,
        n <= keys.len(),
        n <= rows.len(),
    ensures
        indexed(keys, rows, n).contains_key(keys[j]),
        (forall|i: int| 0 <= i < j ==> keys[i] != keys[j]) ==> indexed(keys, rows, n)[keys[j]] == rows[j],
    decreases n,
{
    if j < n - 1 {
        lemma_every_key_is_indexed(keys, rows, n - 1, j);
    } else {
        if (forall|i: int| 0 <= i < j ==> keys[i] != keys[j]) {
            lemma_absent_until_first(keys, rows, j, keys[j]);
        }
    }
}

/// A key no pair before `n` carries is not indexed yet.
proof fn lemma_absent_until_first<T>(keys: Seq<u64>, rows: Seq<T>, n: int, key: u64)
    requires
        0 <= n <= keys.len(),
        forall|i: int| 0 <= i < n ==> keys[i] != key,
    ensures
        !indexed(keys, rows, n).contains_key(key),
    decreases n,
{
    if n > 0 {
        lemma_absent_until_first(keys, rows, n - 1, key);
    }
}

/// Indexing loses nothing: the rows indexed and the rows handed back together number the pairs.
pub proof fn lemma_rows_are_all_accounted_for<T>(keys: Seq<u64>, rows: Seq<T>, n: int)
    requires
        0 <= n <= keys.len(),
        n <= rows.len(),
    ensures
        indexed(keys, rows, n).dom().finite(),
        indexed(keys, rows, n).dom().len() + strays(keys, rows, n).len() == n,
    decreases n,
{
    if n > 0 {
        lemma_rows_are_all_accounted_for(keys, rows, n - 1);
    }
}

} // verus!
