//! The run flag: at most one recovery is active at a time.  Starting while
//! active is a conflict; cancelling while idle is an error.  The flag is also
//! the signal that tells a user-initiated abort apart from a natural exit.

use vstd::prelude::*;

verus! {

/// Errors returned synchronously by the start and cancel operations.
#[derive(Clone, Copy, PartialEq, Eq, Structural, Debug)]
pub enum SyncError {
    /// Start was requested while a recovery was already active.
    Conflict,
    /// Cancel was requested while no recovery was active.
    NotRunning,
}

/// The single shared piece of run state: whether a recovery is active.
/// The caller wraps it in its own mutual-exclusion lock; every transition
/// below is meant to run under that lock.
pub struct RunState {
    active: bool,
}

impl RunState {
    /// Whether a recovery is currently active.
    pub closed spec fn is_active(self) -> bool {
        self.active
    }

    /// A fresh run state: nothing active.
    pub fn new() -> (s: RunState)
        ensures
            !s.is_active(),
    {
        RunState { active: false }
    }

    /// Observe the flag.
    pub fn active(&self) -> (b: bool)
        ensures
            b == self.is_active(),
    {
        self.active
    }

    /// Claim the run slot.  Fails with `Conflict`, changing nothing, when a
    /// recovery is already active; otherwise marks one active.
    pub fn try_start(&mut self) -> (r: Result<(), SyncError>)
        ensures
            old(self).is_active() ==> r == Result::<(), SyncError>::Err(SyncError::Conflict)
                && *final(self) == *old(self),
            !old(self).is_active() ==> r == Result::<(), SyncError>::Ok(())
                && final(self).is_active(),
    {
        if self.active {
            Err(SyncError::Conflict)
        } else {
            self.active = true;
            Ok(())
        }
    }

    /// Release the run slot after a failed launch: the start operation rolls
    /// its claim back before returning the launch error.
    pub fn rollback(&mut self)
        ensures
            !final(self).is_active(),
    {
        self.active = false;
    }

    /// Cancel the active recovery.  Fails with `NotRunning`, changing
    /// nothing, when none is active; otherwise clears the flag, so that the
    /// completion waiter will classify the exit as a user abort.
    pub fn cancel(&mut self) -> (r: Result<(), SyncError>)
        ensures
            !old(self).is_active() ==> r == Result::<(), SyncError>::Err(SyncError::NotRunning)
                && *final(self) == *old(self),
            old(self).is_active() ==> r == Result::<(), SyncError>::Ok(())
                && !final(self).is_active(),
    {
        if !self.active {
            Err(SyncError::NotRunning)
        } else {
            self.active = false;
            Ok(())
        }
    }

    /// The completion waiter's terminal transition: clear the flag and learn
    /// whether it was still set (still set means the process ended on its
    /// own; already clear means the user cancelled).
    pub fn finish(&mut self) -> (was_active: bool)
        ensures
            !final(self).is_active(),
            was_active == old(self).is_active(),
    {
        let was: bool = self.active;
        self.active = false;
        was
    }
}

} // verus!
