//! The single-flight gate: one process-wide execution slot.  Acquisition
//! is a test-and-set on a single flag; it never blocks and it never touches
//! any other state.  The shell around the library must guard a shared
//! `Gate` with its own mutual exclusion (an atomic flag or a mutex) —
//! this type carries the decision logic and its contract.

use vstd::prelude::*;

verus! {

/// The one execution slot.  `in_flight` is true exactly while some request
/// owns the slot.
pub struct Gate {
    busy: bool,
}

impl Gate {
    /// Whether an execution currently owns the slot.
    pub closed spec fn in_flight(&self) -> bool {
        self.busy
    }

    /// Whether an acquisition attempt on this gate would succeed.
    pub open spec fn acquire_would_succeed(&self) -> bool {
        !self.in_flight()
    }

    /// A fresh gate with the slot free.
    pub fn new() -> (g: Gate)
        ensures
            !g.in_flight(),
    {
        Gate { busy: false }
    }

    /// Takes the slot if it is free.  Returns true exactly when the caller
    /// now owns the sole execution slot; on failure nothing changes.
    pub fn try_acquire(&mut self) -> (ok: bool)
        ensures
            ok == old(self).acquire_would_succeed(),
            final(self).in_flight(),
    {
        if self.busy {
            false
        } else {
            self.busy = true;
            true
        }
    }

    /// Frees the slot.  Safe to call on every exit path, owned or not.
    pub fn release(&mut self)
        ensures
            !final(self).in_flight(),
    {
        self.busy = false;
    }
}

/// At most one request holds the slot: while one execution is in flight,
/// any further acquisition attempt fails, until a release.
pub proof fn law_second_acquire_fails(g: Gate)
    requires
        g.in_flight(),
    ensures
        !g.acquire_would_succeed(),
{
}

} // verus!
