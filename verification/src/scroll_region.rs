//! The scroll viewports a node may sit inside, so its on-screen position can account for them.
//!
//! Scrolling is a render transform, not a relayout: a scroll area moves its content by rewriting a matrix and leaves the layout tree where it was. Each scroll area registers its content subtree here, and where a node is drawn is where it was laid out less the offset of every registered subtree that contains it. This keeps the registrations; each is known by an id so a scroll area can withdraw exactly its own.

use vstd::prelude::*;

verus! {

/// Identifies one registration, so a scroll area can withdraw exactly its own on drop.
#[derive(Clone, Copy, PartialEq, Eq, Debug, Structural)]
pub struct ScrollRegionId(pub u64);

/// One registration: its id, and the root of the scrolled subtree, by layout node id.
pub type ScrollRegion = (ScrollRegionId, u64);

/// The registrations of `regions` other than the one with id `id`, in order.
pub open spec fn without(regions: Seq<ScrollRegion>, id: ScrollRegionId) -> Seq<ScrollRegion> {
    regions.filter(other_than(id))
}

/// Whether a registration is any but the one with id `id`.
pub open spec fn other_than(id: ScrollRegionId) -> spec_fn(ScrollRegion) -> bool {
    |r: ScrollRegion| r.0 != id
}

/// The scroll regions registered on one tree, in the order they were registered.
pub struct ScrollRegions {
    regions: Vec<ScrollRegion>,
    next_id: u64,
}

impl View for ScrollRegions {
    type V = Seq<ScrollRegion>;

    closed spec fn view(&self) -> Seq<ScrollRegion> {
        self.regions@
    }
}

impl ScrollRegions {
    /// The number the last id handed out carries.
    pub closed spec fn last_id(&self) -> u64 {
        self.next_id
    }

    /// Holds together: ids were handed out in increasing order, none past the last.
    pub open spec fn wf(&self) -> bool {
        &&& forall|i: int| 0 <= i < self@.len() ==> 0 < (#[trigger] self@[i]).0.0 <= self.last_id()
        &&& forall|i: int, j: int| 0 <= i < j < self@.len() ==> (#[trigger] self@[i]).0.0 < (#[trigger] self@[j]).0.0
    }

    /// Nothing registered.
    pub fn new() -> (r: Self)
        ensures
            r.wf(),
            r@ == Seq::<ScrollRegion>::empty(),
            r.last_id() == 0,
    {
        ScrollRegions { regions: Vec::new(), next_id: 0 }
    }

    /// Whether an id is left to hand out, so that [`ScrollRegions::register_scroll_region`] may be called.
    pub fn has_room(&self) -> (r: bool)
        ensures
            r == (self.last_id() < u64::MAX),
    {
        self.next_id < u64::MAX
    }

    /// Registers `content` as a scrolled subtree, answering the new registration's id, which no registration held before.
    pub fn register_scroll_region(&mut self, content: u64) -> (id: ScrollRegionId)
        requires
            old(self).wf(),
            old(self).last_id() < u64::MAX,
        ensures
            final(self).wf(),
            id.0 == old(self).last_id() + 1,
            final(self).last_id() == id.0,
            final(self)@ == old(self)@.push((id, content)),
            forall|i: int| 0 <= i < old(self)@.len() ==> (#[trigger] old(self)@[i]).0 != id,
    {
        self.next_id = self.next_id + 1;
        let id = ScrollRegionId(self.next_id);
        self.regions.push((id, content));
        id
    }

    /// Withdraws a registration. A no-op for an id already withdrawn.
    pub fn unregister_scroll_region(&mut self, id: ScrollRegionId)
        requires
            old(self).wf(),
        ensures
            final(self).wf(),
            final(self).last_id() == old(self).last_id(),
            final(self)@ == without(old(self)@, id),
    {
        let mut kept: Vec<ScrollRegion> = Vec::new();
        proof {
            assert forall|a: int, c: int| 0 <= a < c < self.regions@.len() implies (#[trigger] self.regions@[a]).0.0 < (#[trigger] self.regions@[c]).0.0 by {
                assert(old(self)@[a] == self.regions@[a]);
                assert(old(self)@[c] == self.regions@[c]);
            }
        }
        let mut i: usize = 0;
        while i < self.regions.len()
            invariant
                i <= self.regions@.len(),
                self.regions@ == old(self).regions@,
                kept@ == without(self.regions@.subrange(0, i as int), id),
                forall|a: int| #![trigger kept@[a]] 0 <= a < kept@.len() ==> exists|b: int| #![trigger self.regions@[b]] 0 <= b < i && kept@[a] == self.regions@[b],
                forall|a: int, b: int| 0 <= a < b < kept@.len() ==> (#[trigger] kept@[a]).0.0 < (#[trigger] kept@[b]).0.0,
                kept@.len() > 0 ==> exists|b: int| 0 <= b < i && kept@.last() == #[trigger] self.regions@[b],
                old(self).wf(),
                forall|a: int, c: int| 0 <= a < c < self.regions@.len() ==> (#[trigger] self.regions@[a]).0.0 < (#[trigger] self.regions@[c]).0.0,
            decreases self.regions@.len() - i,
        {
            let region = self.regions[i];
            proof {
                assert(self.regions@.subrange(0, i + 1) =~= self.regions@.subrange(0, i as int).push(region));
                lemma_filter_push(self.regions@.subrange(0, i as int), other_than(id), region);
            }
            if region.0 != id {
                proof {
                    if kept@.len() > 0 {
                        let b = choose|b: int| 0 <= b < i && kept@.last() == #[trigger] self.regions@[b];
                        assert(self.regions@[b].0.0 < self.regions@[i as int].0.0);
                    }
                }
                let ghost before = kept@;
                kept.push(region);
                proof {
                    assert forall|a: int| #![trigger kept@[a]] 0 <= a < kept@.len() implies exists|b: int| #![trigger self.regions@[b]] 0 <= b < i + 1 && kept@[a] == self.regions@[b] by {
                        if a < kept@.len() - 1 {
                            let b = choose|b: int| 0 <= b < i && before[a] == #[trigger] self.regions@[b];
                            assert(kept@[a] == self.regions@[b]);
                        } else {
                            assert(kept@[a] == self.regions@[i as int]);
                        }
                    }
                    assert(kept@.last() == self.regions@[i as int]);
                }
            }
            i = i + 1;
        }
        proof {
            assert(self.regions@.subrange(0, self.regions@.len() as int) =~= self.regions@);
        }
        self.regions = kept;
        proof {
            assert forall|a: int| 0 <= a < self@.len() implies 0 < (#[trigger] self@[a]).0.0 <= self.last_id() by {
                let b = choose|b: int| 0 <= b < old(self)@.len() && self@[a] == #[trigger] old(self).regions@[b];
                assert(old(self)@[b] == old(self).regions@[b]);
            }
        }
    }

    /// The registrations, in the order they were made.
    pub fn regions(&self) -> (r: &Vec<ScrollRegion>)
        ensures
            r@ == self@,
    {
        &self.regions
    }
}

/// Withdraws the registration `id` from `regions`; see [`ScrollRegions::unregister_scroll_region`].
pub fn unregister_scroll_region(regions: &mut ScrollRegions, id: ScrollRegionId)
    requires
        old(regions).wf(),
    ensures
        final(regions).wf(),
        final(regions).last_id() == old(regions).last_id(),
        final(regions)@ == without(old(regions)@, id),
{
    regions.unregister_scroll_region(id)
}

proof fn lemma_filter_push<A>(s: Seq<A>, p: spec_fn(A) -> bool, a: A)
    ensures
        s.push(a).filter(p) == (if p(a) {
            s.filter(p).push(a)
        } else {
            s.filter(p)
        }),
{
    reveal(Seq::filter);
    assert(s.push(a).drop_last() =~= s);
}

proof fn lemma_filter_all<A>(s: Seq<A>, p: spec_fn(A) -> bool)
    requires
        forall|i: int| 0 <= i < s.len() ==> p(#[trigger] s[i]),
    ensures
        s.filter(p) == s,
    decreases s.len(),
{
    reveal(Seq::filter);
    if s.len() > 0 {
        lemma_filter_all(s.drop_last(), p);
        assert(s.drop_last().push(s.last()) =~= s);
    } else {
        assert(s.filter(p) =~= s);
    }
}

/// Withdrawing a registration withdraws exactly that one: every other stays, in order, and withdrawing it a second time changes nothing.
pub proof fn lemma_withdrawing_twice_is_withdrawing_once(regions: Seq<ScrollRegion>, id: ScrollRegionId)
    ensures
        without(without(regions, id), id) == without(regions, id),
        forall|i: int| 0 <= i < without(regions, id).len() ==> (#[trigger] without(regions, id)[i]).0 != id,
{
    let once = without(regions, id);
    assert forall|i: int| 0 <= i < once.len() implies (#[trigger] once[i]).0 != id by {
        regions.lemma_filter_pred(other_than(id), i);
    }
    lemma_filter_all(once, other_than(id));
}

/// Registering a region and withdrawing it again leaves the registrations as they were.
pub proof fn lemma_register_then_withdraw(regions: Seq<ScrollRegion>, id: ScrollRegionId, content: u64)
    requires
        forall|i: int| 0 <= i < regions.len() ==> (#[trigger] regions[i]).0 != id,
    ensures
        without(regions.push((id, content)), id) == regions,
{
    lemma_filter_push(regions, other_than(id), (id, content));
    lemma_filter_all(regions, other_than(id));
}

} // verus!
