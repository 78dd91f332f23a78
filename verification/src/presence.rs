//! Keeping a node mounted while it leaves, and counting the exits in flight so a window may unmap only once they have all played.
//!
//! A mount starts its exit at most once however often it is asked to leave, counts that exit once, and takes the count back exactly once: when it comes back, or when it is freed mid-exit. The count of exits in flight is therefore the number of mounts whose exit is counted.

use vstd::prelude::*;

verus! {

/// A mount's departure state: whether it is leaving, and whether its exit is counted among those in flight.
#[derive(Clone, Copy, Debug, PartialEq, Eq, Structural)]
pub struct MountView {
    pub leaving: bool,
    pub counted: bool,
}

/// Asking a mount to leave, with `has_exit` saying whether there is anything to play: a mount not yet leaving starts its exit and counts it; one already leaving stays as it is; with nothing to play nothing changes.
pub open spec fn left(m: MountView, has_exit: bool, exits: int) -> (MountView, int) {
    if !has_exit || m.leaving {
        (m, exits)
    } else {
        (MountView { leaving: true, counted: true }, if m.counted { exits } else { exits + 1 })
    }
}

/// Taking the count back, once, never below zero.
pub open spec fn uncounted(m: MountView, exits: int) -> (MountView, int) {
    if !m.counted {
        (m, exits)
    } else {
        (MountView { counted: false, ..m }, if exits > 0 { exits - 1 } else { exits })
    }
}

/// A leaving mount turning back: no longer leaving, its count taken back. A mount not leaving is left as it is.
pub open spec fn came_back(m: MountView, exits: int) -> (MountView, int) {
    if !m.leaving {
        (m, exits)
    } else {
        uncounted(MountView { leaving: false, ..m }, exits)
    }
}

/// One mounted child's departure state.
pub struct Mount {
    leaving: bool,
    counted: bool,
}

impl View for Mount {
    type V = MountView;

    closed spec fn view(&self) -> MountView {
        MountView { leaving: self.leaving, counted: self.counted }
    }
}

impl Mount {
    /// A mount that is not leaving.
    pub fn new() -> (r: Self)
        ensures
            r@ == (MountView { leaving: false, counted: false }),
    {
        Mount { leaving: false, counted: false }
    }

    /// Starts the exit, answering whether there is one to wait for; see [`left`]. Without one the caller removes the child now.
    pub fn leave(&mut self, has_exit: bool, exits: &mut usize) -> (waits: bool)
        requires
            has_exit && !old(self)@.leaving && !old(self)@.counted ==> *old(exits) < usize::MAX,
        ensures
            waits == has_exit,
            (final(self)@, *final(exits) as int) == left(old(self)@, has_exit, *old(exits) as int),
    {
        if !has_exit {
            return false;
        }
        if !self.leaving {
            self.leaving = true;
            if !self.counted {
                *exits = *exits + 1;
            }
            self.counted = true;
        }
        true
    }

    /// Takes the exit back from wherever it had got to, and its count with it; see [`came_back`].
    pub fn come_back(&mut self, exits: &mut usize)
        ensures
            (final(self)@, *final(exits) as int) == came_back(old(self)@, *old(exits) as int),
    {
        if !self.leaving {
            return;
        }
        self.leaving = false;
        self.uncount(exits);
    }

    /// Takes the count back, once: what freeing a mount mid-exit does; see [`uncounted`].
    pub fn uncount(&mut self, exits: &mut usize)
        ensures
            (final(self)@, *final(exits) as int) == uncounted(old(self)@, *old(exits) as int),
    {
        if !self.counted {
            return;
        }
        self.counted = false;
        if *exits > 0 {
            *exits = *exits - 1;
        }
    }

    /// Whether the mount is leaving.
    pub fn is_leaving(&self) -> (r: bool)
        ensures
            r == self@.leaving,
    {
        self.leaving
    }
}

/// What a presence does when its condition or its child's exit changes.
#[derive(Clone, Copy, Debug, PartialEq, Eq, Structural)]
pub enum PresenceAction {
    /// Build the child and mount it, playing its entrance when `animate`.
    Mount { animate: bool },
    /// The child held on its way out turns back, as the same node with the same state.
    TurnBack,
    /// The child plays its exit and stays mounted until it has.
    Leave,
    /// Remove and dispose the child now.
    Unmount,
    /// Nothing is mounted: keep the presence's own node out of the layout.
    HideEmpty,
    /// Nothing to do.
    Nothing,
}

/// A presence's state: whether its condition has been read yet, and the mount of the child it holds, if any.
#[derive(Clone, Copy, Debug, PartialEq, Eq, Structural)]
pub struct PresenceView {
    pub first: bool,
    pub child: Option<MountView>,
}

/// The presence's state, the count of exits in flight, and the action, after the condition reads shown. The first reading mounts without an entrance; a child already held turns back if it was leaving.
pub open spec fn shown(p: PresenceView, exits: int) -> (PresenceView, int, PresenceAction) {
    match p.child {
        Some(m) => if m.leaving {
            let (back, e) = came_back(m, exits);
            (PresenceView { first: false, child: Some(back) }, e, PresenceAction::TurnBack)
        } else {
            (PresenceView { first: false, child: Some(m) }, exits, PresenceAction::Nothing)
        },
        None => (
            PresenceView { first: false, child: Some(MountView { leaving: false, counted: false }) },
            exits,
            PresenceAction::Mount { animate: !p.first },
        ),
    }
}

/// The state, the count and the action after the condition reads hidden, `has_exit` saying whether the child has an exit to play: it leaves if it has, and is unmounted, its count taken back, if it has not; with nothing held the presence's node is kept out of the layout.
pub open spec fn hidden(p: PresenceView, has_exit: bool, exits: int) -> (PresenceView, int, PresenceAction) {
    match p.child {
        Some(m) => if has_exit {
            let (gone, e) = left(m, true, exits);
            (PresenceView { first: false, child: Some(gone) }, e, PresenceAction::Leave)
        } else {
            let (freed, e) = uncounted(m, exits);
            (PresenceView { first: false, child: None }, e, PresenceAction::Unmount)
        },
        None => (PresenceView { first: false, child: None }, exits, PresenceAction::HideEmpty),
    }
}

/// The state, the count and the action once the child's exit has finished: it is unmounted and its count taken back.
pub open spec fn exit_finished(p: PresenceView, exits: int) -> (PresenceView, int, PresenceAction) {
    match p.child {
        Some(m) => {
            let (freed, e) = uncounted(m, exits);
            (PresenceView { first: p.first, child: None }, e, PresenceAction::Unmount)
        },
        None => (p, exits, PresenceAction::Nothing),
    }
}

/// What a presence needs to decide on each change of its condition: a child shown while the condition holds and for as long as its exit takes after.
pub struct PresenceHost {
    first: bool,
    child: Option<Mount>,
}

impl View for PresenceHost {
    type V = PresenceView;

    closed spec fn view(&self) -> PresenceView {
        PresenceView {
            first: self.first,
            child: match self.child {
                Some(m) => Some(m@),
                None => None,
            },
        }
    }
}

impl PresenceHost {
    /// Nothing mounted, the condition not read yet.
    pub fn new() -> (r: Self)
        ensures
            r@ == (PresenceView { first: true, child: None }),
    {
        PresenceHost { first: true, child: None }
    }

    /// Whether a child is mounted, including one on its way out.
    pub fn is_mounted(&self) -> (r: bool)
        ensures
            r == self@.child is Some,
    {
        self.child.is_some()
    }

    /// The condition reads shown; see [`shown`].
    pub fn appear(&mut self, exits: &mut usize) -> (r: PresenceAction)
        ensures
            (final(self)@, *final(exits) as int, r) == shown(old(self)@, *old(exits) as int),
    {
        let entering = !self.first;
        self.first = false;
        match self.child.take() {
            Some(mut m) => {
                if m.is_leaving() {
                    m.come_back(exits);
                    self.child = Some(m);
                    PresenceAction::TurnBack
                } else {
                    self.child = Some(m);
                    PresenceAction::Nothing
                }
            },
            None => {
                self.child = Some(Mount::new());
                PresenceAction::Mount { animate: entering }
            },
        }
    }

    /// The condition reads hidden; `has_exit` tells whether the child has an exit to play. See [`hidden`].
    pub fn disappear(&mut self, has_exit: bool, exits: &mut usize) -> (r: PresenceAction)
        requires
            (old(self)@.child matches Some(m) && has_exit && !m.leaving && !m.counted) ==> *old(exits) < usize::MAX,
        ensures
            (final(self)@, *final(exits) as int, r) == hidden(old(self)@, has_exit, *old(exits) as int),
    {
        self.first = false;
        match self.child.take() {
            Some(mut m) => {
                if has_exit {
                    m.leave(true, exits);
                    self.child = Some(m);
                    PresenceAction::Leave
                } else {
                    m.uncount(exits);
                    PresenceAction::Unmount
                }
            },
            None => PresenceAction::HideEmpty,
        }
    }

    /// The child's exit has played to its end; see [`exit_finished`].
    pub fn exit_done(&mut self, exits: &mut usize) -> (r: PresenceAction)
        ensures
            (final(self)@, *final(exits) as int, r) == exit_finished(old(self)@, *old(exits) as int),
    {
        match self.child.take() {
            Some(mut m) => {
                m.uncount(exits);
                PresenceAction::Unmount
            },
            None => PresenceAction::Nothing,
        }
    }
}

/// The first showing is not animated: a presence whose condition holds from the start appears at once, and any later mount plays its entrance.
pub proof fn lemma_only_a_later_showing_animates(p: PresenceView, exits: int)
    requires
        p.child is None,
    ensures
        shown(p, exits).2 == (PresenceAction::Mount { animate: !p.first }),
        shown(PresenceView { first: true, child: None }, exits).2 == (PresenceAction::Mount { animate: false }),
{
}

/// Shown again mid-exit, a child turns back rather than being built anew, and the presence is as it was before it was hidden, count and all.
pub proof fn lemma_shown_again_turns_back(exits: int)
    requires
        exits >= 0,
    ensures
        ({
            let held = PresenceView { first: false, child: Some(MountView { leaving: false, counted: false }) };
            let (gone, during, a) = hidden(held, true, exits);
            let (back, after, b) = shown(gone, during);
            &&& a == PresenceAction::Leave
            &&& b == PresenceAction::TurnBack
            &&& back == held
            &&& after == exits
        }),
{
}

/// A hidden child stays mounted for its exit and goes once the exit finishes, taking its count back; one with no exit goes at once.
pub proof fn lemma_a_hidden_child_goes_once_its_exit_is_done(exits: int)
    requires
        exits >= 0,
    ensures
        ({
            let held = PresenceView { first: false, child: Some(MountView { leaving: false, counted: false }) };
            let (gone, during, _a) = hidden(held, true, exits);
            let (done, after, b) = exit_finished(gone, during);
            &&& gone.child is Some
            &&& during == exits + 1
            &&& b == PresenceAction::Unmount
            &&& done.child is None
            &&& after == exits
            &&& hidden(held, false, exits).0.child is None
            &&& hidden(held, false, exits).2 == PresenceAction::Unmount
        }),
{
}

/// Asking twice is asking once: a second request to leave changes neither the mount nor the count.
pub proof fn lemma_leaving_twice_is_leaving_once(m: MountView, has_exit: bool, exits: int)
    ensures
        left(left(m, has_exit, exits).0, has_exit, left(m, has_exit, exits).1) == left(m, has_exit, exits),
{
}

/// A mount that leaves and comes back is as it was, and so is the count of exits in flight.
pub proof fn lemma_coming_back_undoes_leaving(exits: int)
    requires
        exits >= 0,
    ensures
        ({
            let fresh = MountView { leaving: false, counted: false };
            let (gone, during) = left(fresh, true, exits);
            came_back(gone, during) == (fresh, exits)
        }),
{
}

/// The count of exits in flight is the number of counted exits: every operation on a mount keeps `exits == rest + counted` for the count `rest` of the others.
pub proof fn lemma_the_count_is_the_counted_exits(m: MountView, rest: int, has_exit: bool)
    requires
        rest >= 0,
    ensures
        ({
            let exits = rest + if m.counted { 1int } else { 0int };
            let (a, ea) = left(m, has_exit, exits);
            let (b, eb) = came_back(m, exits);
            let (c, ec) = uncounted(m, exits);
            &&& ea == rest + if a.counted { 1int } else { 0int }
            &&& eb == rest + if b.counted { 1int } else { 0int }
            &&& ec == rest + if c.counted { 1int } else { 0int }
        }),
{
}

/// Leaving with nothing to play changes nothing, and leaving with an exit to play leaves the mount leaving with its exit counted; the count of exits in flight goes up by one exactly when the exit was not counted before.
pub proof fn lemma_leaving_starts_the_exit_only_with_one(m: MountView, exits: int)
    ensures
        left(m, false, exits) == (m, exits),
        !m.leaving ==> left(m, true, exits).0 == (MountView { leaving: true, counted: true }),
        !m.leaving ==> left(m, true, exits).1 == exits + if m.counted { 0int } else { 1int },
        came_back(m, exits).0.leaving == false,
        uncounted(m, exits).0.counted == false,
        m.counted && exits > 0 ==> uncounted(m, exits).1 == exits - 1,
{
}

} // verus!
