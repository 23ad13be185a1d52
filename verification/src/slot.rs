//! The single slot that marks a running session and holds the means to
//! stop it.

use vstd::prelude::*;
use vstd::string::*;

verus! {

/// The refusal of a second concurrent session.
pub open spec fn already_running_text() -> Seq<char> {
    "Already running"@
}

/// A claim on the slot holding `current`: granted, and the slot then holds
/// `stop`, exactly when it was empty; refused otherwise, the slot unchanged.
pub open spec fn claim_outcome<T>(current: Option<T>, stop: T) -> (Option<T>, bool) {
    match current {
        None => (Some(stop), true),
        Some(_) => (current, false),
    }
}

/// At most one session runs: a second claim is refused while the first
/// holds, and once the slot is emptied (taken or cleared) a claim is
/// granted again.
pub proof fn lemma_one_session_at_a_time<T>(first: T, second: T)
    ensures
        claim_outcome(None, first) == (Some(first), true),
        claim_outcome(claim_outcome(None, first).0, second) == (Some(first), false),
        claim_outcome(None::<T>, second).1,
{
}

/// A refused start reads `Already running`.
pub proof fn lemma_refusal_text()
    ensures
        already_running_text() == "Already running"@,
{
}

/// Holds the stop handle of the running session, if one runs.
pub struct SessionSlot<T> {
    current: Option<T>,
}

impl<T> View for SessionSlot<T> {
    type V = Option<T>;

    closed spec fn view(&self) -> Option<T> {
        self.current
    }
}

impl<T> SessionSlot<T> {
    /// No session runs.
    pub fn new() -> (s: SessionSlot<T>)
        ensures
            s@ is None,
    {
        SessionSlot { current: None }
    }

    /// Whether a session runs.
    pub fn is_running(&self) -> (b: bool)
        ensures
            b == self@ is Some,
    {
        self.current.is_some()
    }

    /// Marks a session as running with `stop`, unless one already runs:
    /// then the slot is left as it was and the start is refused.
    pub fn try_claim(&mut self, stop: T) -> (r: Result<(), String>)
        ensures
            (final(self)@, r is Ok) == claim_outcome(old(self)@, stop),
            r matches Err(m) ==> m@ == already_running_text(),
    {
        if self.current.is_some() {
            return Err(String::from_str("Already running"));
        }
        self.current = Some(stop);
        Ok(())
    }

    /// Takes the stop handle out; no session counts as running afterwards.
    pub fn take(&mut self) -> (r: Option<T>)
        ensures
            r == old(self)@,
            final(self)@ is None,
    {
        let r = self.current.take();
        r
    }

    /// Marks that no session runs.
    pub fn clear(&mut self)
        ensures
            final(self)@ is None,
    {
        self.current = None;
    }
}

} // verus!
