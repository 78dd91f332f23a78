//! A subtree that is not built until the first time it would be shown, and from then on only shown or hidden.

use vstd::prelude::*;

verus! {

/// A showing with the condition reading `visible`, from a block whose builder is `taken` or not: whether to build now, and whether the builder is taken after.
pub open spec fn showing(taken: bool, visible: bool) -> (bool, bool) {
    (visible && !taken, taken || visible)
}

/// Whether a lazy block has taken its builder yet.
///
/// The builder is taken out the first time the block is shown, which is what makes it once-only: every later showing finds it gone and only toggles display. A build that fails has still taken it.
pub struct LazyPhase {
    taken: bool,
}

impl LazyPhase {
    /// Whether the builder has been taken.
    pub closed spec fn taken(&self) -> bool {
        self.taken
    }

    /// Nothing built yet.
    pub fn new() -> (r: Self)
        ensures
            !r.taken(),
    {
        LazyPhase { taken: false }
    }

    /// The block's condition now reads `visible`. Answers whether to run the build now: only on the first showing.
    pub fn show(&mut self, visible: bool) -> (build_now: bool)
        ensures
            (build_now, final(self).taken()) == showing(old(self).taken(), visible),
    {
        if visible && !self.taken {
            self.taken = true;
            return true;
        }
        false
    }

    /// Whether the subtree has been built yet: false until the condition first holds.
    pub fn is_built(&self) -> (r: bool)
        ensures
            r == self.taken(),
    {
        self.taken
    }
}

/// The subtree is built once: nothing before the condition first holds, once on that showing, and never again whatever the condition does after.
pub proof fn lemma_built_once(taken: bool, later: bool)
    ensures
        !showing(taken, false).0,
        !showing(showing(taken, true).1, later).0,
        showing(false, true).0,
{
}

} // verus!
