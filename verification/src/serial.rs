//! [`Serial`]: one reconcile at a time, with the ones that arrive mid-reconcile queued behind it.
//!
//! A row's build can write a signal whose flush asks the same reconcile to start over, and running it there would reconcile against a list that is halfway through changing, so it is queued instead and applied once the running pass has committed. Only the newest queued value is kept: it supersedes every older one.

use vstd::prelude::*;

verus! {

/// Where a serial runner stands: whether a pass is running, and the value queued behind it.
pub struct SerialView<T> {
    pub running: bool,
    pub queued: Option<T>,
}

/// Asking for a pass with `value`: applied now, as the one running pass, when none is running, dropping anything a pass that unwound left queued; queued behind the running pass otherwise, superseding whatever was queued before.
pub open spec fn requested<T>(s: SerialView<T>, value: T) -> (SerialView<T>, Option<T>) {
    if s.running {
        (SerialView { running: true, queued: Some(value) }, None)
    } else {
        (SerialView { running: true, queued: None }, Some(value))
    }
}

/// A pass has been applied: the queued value is the next to apply, and with nothing queued the runner goes idle.
pub open spec fn advanced<T>(s: SerialView<T>) -> (SerialView<T>, Option<T>) {
    (SerialView { running: s.queued is Some, queued: None }, s.queued)
}

/// Runs passes one at a time.
pub struct Serial<T> {
    running: bool,
    queued: Option<T>,
}

impl<T> View for Serial<T> {
    type V = SerialView<T>;

    closed spec fn view(&self) -> SerialView<T> {
        SerialView { running: self.running, queued: self.queued }
    }
}

impl<T> Serial<T> {
    /// Idle, with nothing queued.
    pub fn new() -> (r: Self)
        ensures
            r@ == (SerialView::<T> { running: false, queued: None }),
    {
        Serial { running: false, queued: None }
    }

    /// Asks for a pass with `value`, answering the value to apply now, if any. See [`requested`].
    pub fn request(&mut self, value: T) -> (now: Option<T>)
        ensures
            (final(self)@, now) == requested(old(self)@, value),
    {
        if self.running {
            self.queued = Some(value);
            return None;
        }
        self.running = true;
        // Left over only by a pass that unwound, and older than `value`.
        self.queued = None;
        Some(value)
    }

    /// Reports a pass applied, answering the next value to apply, if any. See [`advanced`].
    pub fn advance(&mut self) -> (next: Option<T>)
        ensures
            (final(self)@, next) == advanced(old(self)@),
    {
        let next = self.queued.take();
        self.running = next.is_some();
        next
    }

    /// Reports that the running pass unwound: the runner is free again, and whatever was queued is older than the next request and is dropped by it.
    pub fn abandon(&mut self)
        ensures
            final(self)@ == (SerialView { running: false, ..old(self)@ }),
    {
        self.running = false;
    }

    /// Whether a pass is running.
    pub fn is_running(&self) -> (r: bool)
        ensures
            r == self@.running,
    {
        self.running
    }
}

/// A pass asked for while another runs is applied after it, with the newest value asked for: two requests mid-run, and the one the runner turns to next is the second.
pub proof fn lemma_newest_request_runs_next<T>(s: SerialView<T>, first: T, second: T)
    requires
        s.running,
    ensures
        requested(s, first).1 is None,
        requested(requested(s, first).0, second).1 is None,
        advanced(requested(requested(s, first).0, second).0).1 == Some(second),
        advanced(advanced(requested(requested(s, first).0, second).0).0).1 is None,
{
}

/// A pass that unwound leaves the next one free to start, with the value it was asked for.
pub proof fn lemma_an_abandoned_run_frees_the_next<T>(s: SerialView<T>, value: T)
    ensures
        requested(SerialView { running: false, ..s }, value).1 == Some(value),
        requested(SerialView { running: false, ..s }, value).0.queued is None,
{
}

/// An idle runner applies a request at once, and is idle again once that pass reports in with nothing queued behind it.
pub proof fn lemma_an_idle_runner_applies_at_once<T>(s: SerialView<T>, value: T)
    requires
        !s.running,
    ensures
        requested(s, value).1 == Some(value),
        !advanced(requested(s, value).0).0.running,
        advanced(requested(s, value).0).1 is None,
{
}

} // verus!
