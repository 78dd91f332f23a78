//! [`NameTable`]: values filed under names, one per name, for the registries that widgets reach by name — named overlays and link anchors.

use vstd::prelude::*;

verus! {

/// Whether `a` and `b` are the same text.
pub fn same_text(a: &str, b: &str) -> (r: bool)
    ensures
        r == (a@ == b@),
{
    let a = a.to_owned();
    let b = b.to_owned();
    a == b
}

/// Nothing filed under any name.
pub open spec fn empty_names<V>() -> Map<Seq<char>, V> {
    Map::empty()
}

/// The map a list of entries files: each name to the value of its last entry.
pub open spec fn entries_map<V>(s: Seq<(String, V)>) -> Map<Seq<char>, V>
    decreases s.len(),
{
    if s.len() == 0 {
        Map::empty()
    } else {
        entries_map(s.drop_last()).insert(s.last().0@, s.last().1)
    }
}

/// No two entries share a name.
pub open spec fn distinct_names<V>(s: Seq<(String, V)>) -> bool {
    forall|i: int, j: int| 0 <= i < j < s.len() ==> s[i].0@ != s[j].0@
}

proof fn lemma_entry_is_filed<V>(s: Seq<(String, V)>, i: int)
    requires
        distinct_names(s),
        0 <= i < s.len(),
    ensures
        entries_map(s).contains_key(s[i].0@),
        entries_map(s)[s[i].0@] == s[i].1,
    decreases s.len(),
{
    if i < s.len() - 1 {
        assert(s.drop_last()[i] == s[i]);
        lemma_entry_is_filed(s.drop_last(), i);
    }
}

proof fn lemma_unnamed_is_absent<V>(s: Seq<(String, V)>, name: Seq<char>)
    requires
        forall|i: int| 0 <= i < s.len() ==> s[i].0@ != name,
    ensures
        !entries_map(s).contains_key(name),
    decreases s.len(),
{
    if s.len() > 0 {
        lemma_unnamed_is_absent(s.drop_last(), name);
    }
}

proof fn lemma_update_entry<V>(s: Seq<(String, V)>, i: int, v: V)
    requires
        distinct_names(s),
        0 <= i < s.len(),
    ensures
        entries_map(s.update(i, (s[i].0, v))) == entries_map(s).insert(s[i].0@, v),
    decreases s.len(),
{
    let t = s.update(i, (s[i].0, v));
    if i == s.len() - 1 {
        assert(t.drop_last() =~= s.drop_last());
        assert(entries_map(t) =~= entries_map(s).insert(s[i].0@, v));
    } else {
        assert(t.drop_last() =~= s.drop_last().update(i, (s[i].0, v)));
        lemma_update_entry(s.drop_last(), i, v);
        assert(entries_map(t) =~= entries_map(s).insert(s[i].0@, v));
    }
}

proof fn lemma_remove_entry<V>(s: Seq<(String, V)>, i: int)
    requires
        distinct_names(s),
        0 <= i < s.len(),
    ensures
        entries_map(s.remove(i)) == entries_map(s).remove(s[i].0@),
        distinct_names(s.remove(i)),
    decreases s.len(),
{
    let t = s.remove(i);
    if i == s.len() - 1 {
        assert(t =~= s.drop_last());
        lemma_unnamed_is_absent(s.drop_last(), s[i].0@);
        assert(entries_map(t) =~= entries_map(s).remove(s[i].0@));
    } else {
        assert(t.drop_last() =~= s.drop_last().remove(i));
        lemma_remove_entry(s.drop_last(), i);
        assert(t.last() == s.last());
        assert(entries_map(t) =~= entries_map(s).remove(s[i].0@));
    }
}

/// Values filed under names, one per name.
pub struct NameTable<V> {
    entries: Vec<(String, V)>,
}

impl<V> View for NameTable<V> {
    type V = Map<Seq<char>, V>;

    closed spec fn view(&self) -> Map<Seq<char>, V> {
        entries_map(self.entries@)
    }
}

impl<V: Copy> NameTable<V> {
    /// Holds together: one entry per name.
    pub closed spec fn wf(&self) -> bool {
        distinct_names(self.entries@)
    }

    /// Nothing filed.
    pub fn new() -> (r: Self)
        ensures
            r.wf(),
            r@ == empty_names::<V>(),
    {
        NameTable { entries: Vec::new() }
    }

    fn find(&self, name: &str) -> (r: Option<usize>)
        requires
            self.wf(),
        ensures
            r matches Some(i) ==> i < self.entries@.len() && self.entries@[i as int].0@ == name@,
            r is None ==> forall|j: int| 0 <= j < self.entries@.len() ==> self.entries@[j].0@ != name@,
    {
        let mut i: usize = 0;
        while i < self.entries.len()
            invariant
                i <= self.entries@.len(),
                forall|j: int| 0 <= j < i ==> self.entries@[j].0@ != name@,
            decreases self.entries@.len() - i,
        {
            if same_text(self.entries[i].0.as_str(), name) {
                return Some(i);
            }
            i = i + 1;
        }
        None
    }

    /// The value filed under `name`, if any.
    pub fn get(&self, name: &str) -> (r: Option<V>)
        requires
            self.wf(),
        ensures
            r == (if self@.contains_key(name@) {
                Some(self@[name@])
            } else {
                None
            }),
    {
        match self.find(name) {
            Some(i) => {
                proof {
                    lemma_entry_is_filed(self.entries@, i as int);
                }
                Some(self.entries[i].1)
            },
            None => {
                proof {
                    lemma_unnamed_is_absent(self.entries@, name@);
                }
                None
            },
        }
    }

    /// Files `value` under `name`, replacing whatever was filed there.
    pub fn set(&mut self, name: &str, value: V)
        requires
            old(self).wf(),
        ensures
            final(self).wf(),
            final(self)@ == old(self)@.insert(name@, value),
    {
        match self.find(name) {
            Some(i) => {
                proof {
                    lemma_update_entry(self.entries@, i as int, value);
                }
                let entry_name = self.entries[i].0.clone();
                self.entries.set(i, (entry_name, value));
                proof {
                    assert(self.entries@ =~= old(self).entries@.update(i as int, (old(self).entries@[i as int].0, value)));
                }
            },
            None => {
                let owned = name.to_owned();
                self.entries.push((owned, value));
                proof {
                    assert(self.entries@.drop_last() =~= old(self).entries@);
                }
            },
        }
    }

    /// Withdraws whatever is filed under `name`.
    pub fn remove(&mut self, name: &str)
        requires
            old(self).wf(),
        ensures
            final(self).wf(),
            final(self)@ == old(self)@.remove(name@),
    {
        match self.find(name) {
            Some(i) => {
                proof {
                    lemma_remove_entry(self.entries@, i as int);
                }
                self.entries.remove(i);
            },
            None => {
                proof {
                    lemma_unnamed_is_absent(self.entries@, name@);
                    assert(old(self)@.remove(name@) =~= old(self)@);
                }
            },
        }
    }

    /// Withdraws everything.
    pub fn clear(&mut self)
        ensures
            final(self).wf(),
            final(self)@ == empty_names::<V>(),
    {
        self.entries.clear();
        proof {
            assert(self.entries@ =~= Seq::<(String, V)>::empty());
        }
    }
}

} // verus!
