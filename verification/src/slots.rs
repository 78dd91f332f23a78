//! The children a component receives from its call site, grouped by slot.
//!
//! A bare child lands in the default slot (`None`); a child written with `slot:"name"` lands in that named slot. Draining a slot hands back its children in call-site order and is one-shot: the same slot drained twice yields nothing the second time, and every other slot keeps its children, in order.

use vstd::prelude::*;

use crate::names::same_text;

verus! {

/// The slot a child was filed under, as text.
pub open spec fn slot_name<I>(entry: (Option<String>, I)) -> Option<Seq<char>> {
    name_text(entry.0)
}

/// A slot name as text.
pub open spec fn name_text(name: Option<String>) -> Option<Seq<char>> {
    match name {
        Some(n) => Some(n@),
        None => None,
    }
}

/// A slot asked for, as text.
pub open spec fn slot_text(slot: Option<&str>) -> Option<Seq<char>> {
    match slot {
        Some(s) => Some(s@),
        None => None,
    }
}

/// The children of `entries` filed under `slot`, in call-site order.
pub open spec fn in_slot<I>(entries: Seq<(Option<String>, I)>, slot: Option<Seq<char>>) -> Seq<I>
    decreases entries.len(),
{
    if entries.len() == 0 {
        Seq::empty()
    } else {
        let earlier = in_slot(entries.drop_last(), slot);
        if slot_name(entries.last()) == slot {
            earlier.push(entries.last().1)
        } else {
            earlier
        }
    }
}

/// The entries of `entries` filed under any slot but `slot`, in call-site order.
pub open spec fn outside_slot<I>(entries: Seq<(Option<String>, I)>, slot: Option<Seq<char>>) -> Seq<(Option<String>, I)>
    decreases entries.len(),
{
    if entries.len() == 0 {
        Seq::empty()
    } else {
        let earlier = outside_slot(entries.drop_last(), slot);
        if slot_name(entries.last()) == slot {
            earlier
        } else {
            earlier.push(entries.last())
        }
    }
}

/// A component's children, grouped by slot, in call-site order.
pub struct Slots<I> {
    items: Vec<(Option<String>, I)>,
}

impl<I> View for Slots<I> {
    type V = Seq<(Option<String>, I)>;

    closed spec fn view(&self) -> Seq<(Option<String>, I)> {
        self.items@
    }
}

fn name_matches(name: &Option<String>, slot: Option<&str>) -> (r: bool)
    ensures
        r == (name_text(*name) == slot_text(slot)),
{
    match (name, slot) {
        (Some(n), Some(s)) => same_text(n.as_str(), s),
        (None, None) => true,
        _ => false,
    }
}

impl<I> Slots<I> {
    /// No children.
    pub fn new() -> (r: Self)
        ensures
            r@.len() == 0,
    {
        Slots { items: Vec::new() }
    }

    /// Files `item` under `name`, or in the default slot for `None`, after every child filed so far.
    pub fn push(&mut self, name: Option<&str>, item: I)
        ensures
            final(self)@.len() == old(self)@.len() + 1,
            final(self)@.drop_last() == old(self)@,
            final(self)@.last().1 == item,
            slot_name(final(self)@.last()) == slot_text(name),
    {
        let owned = match name {
            Some(s) => Some(s.to_owned()),
            None => None,
        };
        self.items.push((owned, item));
        proof {
            assert(self@.drop_last() =~= old(self)@);
        }
    }

    /// Appends `items` as default (unnamed) children, in order.
    pub fn extend_default(&mut self, items: Vec<I>)
        ensures
            final(self)@.len() == old(self)@.len() + items@.len(),
            final(self)@.subrange(0, old(self)@.len() as int) == old(self)@,
            forall|i: int| 0 <= i < items@.len() ==> (#[trigger] final(self)@[old(self)@.len() + i]) == (None::<String>, items@[i]),
    {
        let ghost start = self@;
        let ghost all = items@;
        for item in it: items.into_iter()
            invariant
                it.seq() == all,
                self@.len() == start.len() + it.index(),
                self@.subrange(0, start.len() as int) == start,
                forall|i: int| 0 <= i < it.index() ==> (#[trigger] self@[start.len() + i]) == (None::<String>, all[i]),
        {
            let ghost before = self@;
            self.items.push((None, item));
            proof {
                assert(self@.subrange(0, start.len() as int) =~= before.subrange(0, start.len() as int));
            }
        }
    }

    /// How many children are still undrained, across every slot.
    pub fn len(&self) -> (r: usize)
        ensures
            r == self@.len(),
    {
        self.items.len()
    }

    /// Whether the call site passed no children at all.
    pub fn is_empty(&self) -> (r: bool)
        ensures
            r == (self@.len() == 0),
    {
        self.items.len() == 0
    }

    fn take_matching(&mut self, slot: Option<&str>) -> (taken: Vec<I>)
        ensures
            taken@ == in_slot(old(self)@, slot_text(slot)),
            final(self)@ == outside_slot(old(self)@, slot_text(slot)),
    {
        let ghost target = slot_text(slot);
        let mut all: Vec<(Option<String>, I)> = Vec::new();
        std::mem::swap(&mut all, &mut self.items);
        let ghost entries = all@;
        let mut taken: Vec<I> = Vec::new();
        let mut rest: Vec<(Option<String>, I)> = Vec::new();
        for entry in it: all.into_iter()
            invariant
                it.seq() == entries,
                target == slot_text(slot),
                taken@ == in_slot(entries.subrange(0, it.index() as int), target),
                rest@ == outside_slot(entries.subrange(0, it.index() as int), target),
        {
            let ghost i = it.index();
            proof {
                assert(entry == entries[i as int]);
                assert(entries.subrange(0, i + 1).drop_last() =~= entries.subrange(0, i as int));
                assert(entries.subrange(0, i + 1).last() == entries[i as int]);
            }
            if name_matches(&entry.0, slot) {
                taken.push(entry.1);
            } else {
                rest.push(entry);
            }
        }
        proof {
            assert(entries.subrange(0, entries.len() as int) =~= entries);
        }
        self.items = rest;
        taken
    }

    /// Drains the default (unnamed) children in call-site order.
    pub fn take_default(&mut self) -> (taken: Vec<I>)
        ensures
            taken@ == in_slot(old(self)@, None),
            final(self)@ == outside_slot(old(self)@, None),
    {
        self.take_matching(None)
    }

    /// Drains the children filed under `name`, in call-site order.
    pub fn take(&mut self, name: &str) -> (taken: Vec<I>)
        ensures
            taken@ == in_slot(old(self)@, Some(name@)),
            final(self)@ == outside_slot(old(self)@, Some(name@)),
    {
        self.take_matching(Some(name))
    }
}

/// Draining is one-shot: once a slot has been drained, draining it again yields nothing, and leaves the rest as it was.
pub proof fn lemma_draining_twice_yields_nothing<I>(entries: Seq<(Option<String>, I)>, slot: Option<Seq<char>>)
    ensures
        in_slot(outside_slot(entries, slot), slot) == Seq::<I>::empty(),
        outside_slot(outside_slot(entries, slot), slot) == outside_slot(entries, slot),
    decreases entries.len(),
{
    if entries.len() > 0 {
        lemma_draining_twice_yields_nothing(entries.drop_last(), slot);
        let earlier = outside_slot(entries.drop_last(), slot);
        if slot_name(entries.last()) != slot {
            assert(earlier.push(entries.last()).drop_last() == earlier);
        }
    }
}

/// Draining one slot leaves another slot's children as they were, in order.
pub proof fn lemma_other_slots_are_untouched<I>(entries: Seq<(Option<String>, I)>, slot: Option<Seq<char>>, other: Option<Seq<char>>)
    requires
        slot != other,
    ensures
        in_slot(outside_slot(entries, slot), other) == in_slot(entries, other),
    decreases entries.len(),
{
    if entries.len() > 0 {
        lemma_other_slots_are_untouched(entries.drop_last(), slot, other);
        let earlier = outside_slot(entries.drop_last(), slot);
        if slot_name(entries.last()) != slot {
            assert(earlier.push(entries.last()).drop_last() == earlier);
        }
    }
}

/// Draining loses no child: what is taken and what stays number what there was.
pub proof fn lemma_draining_loses_nothing<I>(entries: Seq<(Option<String>, I)>, slot: Option<Seq<char>>)
    ensures
        in_slot(entries, slot).len() + outside_slot(entries, slot).len() == entries.len(),
    decreases entries.len(),
{
    if entries.len() > 0 {
        lemma_draining_loses_nothing(entries.drop_last(), slot);
    }
}

} // verus!
