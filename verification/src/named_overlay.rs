//! Named overlays: opening a dialog or drawer by name, instead of threading its open state to everything that might open it.
//!
//! The state of a name is minted on first use by either side, so opening a name before its overlay is built works, and the overlay picks up the very same state when it appears.

use vstd::prelude::*;

use crate::names::{NameTable, empty_names};

verus! {

/// Whether the overlay named `id` is open in `states`: closed until something opens it.
pub open spec fn is_open_in(states: Map<Seq<char>, bool>, id: Seq<char>) -> bool {
    states.contains_key(id) && states[id]
}

/// The open state of every overlay that has been named.
pub struct NamedOverlays {
    states: NameTable<bool>,
}

impl View for NamedOverlays {
    type V = Map<Seq<char>, bool>;

    closed spec fn view(&self) -> Map<Seq<char>, bool> {
        self.states@
    }
}

impl NamedOverlays {
    /// Holds together.
    pub closed spec fn wf(&self) -> bool {
        self.states.wf()
    }

    /// No name used yet.
    pub fn new() -> (r: Self)
        ensures
            r.wf(),
            r@ == empty_names::<bool>(),
    {
        NamedOverlays { states: NameTable::new() }
    }

    /// The open state of the overlay named `id`, minted closed on first use.
    ///
    /// Either side may be first: an `open("settings")` from a shortcut handler creates the state, and the drawer built later finds it already open.
    pub fn state(&mut self, id: &str) -> (r: bool)
        requires
            old(self).wf(),
        ensures
            final(self).wf(),
            r == is_open_in(old(self)@, id@),
            final(self)@ == (if old(self)@.contains_key(id@) {
                old(self)@
            } else {
                old(self)@.insert(id@, false)
            }),
    {
        match self.states.get(id) {
            Some(open) => open,
            None => {
                self.states.set(id, false);
                false
            },
        }
    }

    /// Whether the overlay named `id` is open, without minting its state.
    pub fn is_open(&self, id: &str) -> (r: bool)
        requires
            self.wf(),
        ensures
            r == is_open_in(self@, id@),
    {
        match self.states.get(id) {
            Some(open) => open,
            None => false,
        }
    }

    /// Opens the overlay named `id`.
    pub fn open(&mut self, id: &str)
        requires
            old(self).wf(),
        ensures
            final(self).wf(),
            final(self)@ == old(self)@.insert(id@, true),
    {
        self.states.set(id, true);
    }

    /// Closes the overlay named `id`. Not the same as a dismissal: it closes exactly this overlay, where a dismissal closes whichever is frontmost.
    pub fn close(&mut self, id: &str)
        requires
            old(self).wf(),
        ensures
            final(self).wf(),
            final(self)@ == old(self)@.insert(id@, false),
    {
        self.states.set(id, false);
    }

    /// Forgets every name.
    pub fn clear(&mut self)
        ensures
            final(self).wf(),
            final(self)@ == empty_names::<bool>(),
    {
        self.states.clear();
    }
}

/// Opens the overlay named `id` in `overlays`.
pub fn open(overlays: &mut NamedOverlays, id: &str)
    requires
        old(overlays).wf(),
    ensures
        final(overlays).wf(),
        final(overlays)@ == old(overlays)@.insert(id@, true),
{
    overlays.open(id)
}

/// Closes the overlay named `id` in `overlays`.
pub fn close(overlays: &mut NamedOverlays, id: &str)
    requires
        old(overlays).wf(),
    ensures
        final(overlays).wf(),
        final(overlays)@ == old(overlays)@.insert(id@, false),
{
    overlays.close(id)
}

/// Open and close drive the same state: a name opened reads open, closed again reads closed, and before either it reads closed.
pub proof fn lemma_open_and_close_drive_one_state(states: Map<Seq<char>, bool>, id: Seq<char>)
    ensures
        !is_open_in(Map::empty(), id),
        is_open_in(states.insert(id, true), id),
        !is_open_in(states.insert(id, true).insert(id, false), id),
{
}

/// A name can be opened before anything is built for it, and whatever asks for its state afterwards finds it open.
pub proof fn lemma_opened_before_built(states: Map<Seq<char>, bool>, id: Seq<char>)
    ensures
        is_open_in(states.insert(id, true), id),
        states.insert(id, true).contains_key(id),
{
}

/// A different name is independent: opening or closing one leaves every other as it was.
pub proof fn lemma_names_are_independent(states: Map<Seq<char>, bool>, id: Seq<char>, other: Seq<char>, open: bool)
    requires
        id != other,
    ensures
        is_open_in(states.insert(id, open), other) == is_open_in(states, other),
{
}

} // verus!
