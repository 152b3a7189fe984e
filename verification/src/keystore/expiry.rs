//! The relock timer.
//!
//! The owner of a keystore runs one timer. The scheduler says when the timer is to be
//! set, and relocks the keystore when the timer goes off. A timer that goes off late, or
//! that was set for a window which a new unlock has replaced, does no harm: the
//! keystore is relocked only if its window has passed.

use super::{KeyStore, KeyStoreView};
use vstd::prelude::*;

verus! {

/// What the owner of the timer is to do with it.
#[derive(Clone, Copy, Debug, PartialEq, Eq, Structural)]
pub enum TimerAction {
    /// Leave the timer as it is.
    Keep,
    /// Set the timer to go off at this time.
    Arm(u64),
    /// Stop the timer.
    Cancel,
}

/// Keeps track of the time for which the timer is set.
#[derive(Debug)]
pub struct ExpiryScheduler {
    armed: Option<u64>,
}

impl View for ExpiryScheduler {
    type V = Option<int>;

    /// The time for which the timer is set, if it is set.
    closed spec fn view(&self) -> Option<int> {
        match self.armed {
            Some(at) => Some(at as int),
            None => None,
        }
    }
}

/// Whether `action` brings a timer that is set as `armed` says to go off at the
/// `deadline`, and is `Keep` where it is so set already.
pub open spec fn reconciles(
    action: TimerAction,
    armed: Option<int>,
    deadline: Option<int>,
) -> bool {
    match action {
        TimerAction::Keep => armed == deadline,
        TimerAction::Arm(at) => armed != deadline && deadline == Some(at as int),
        TimerAction::Cancel => armed != deadline && deadline is None,
    }
}

impl ExpiryScheduler {
    /// A scheduler whose timer is not set.
    pub fn new() -> (scheduler: ExpiryScheduler)
        ensures
            scheduler@ is None,
    {
        ExpiryScheduler { armed: None }
    }

    /// Brings the timer in line with the keystore's unlock window. To be called after
    /// every operation that may have changed the window.
    pub fn reschedule(&mut self, keystore: &KeyStore) -> (action: TimerAction)
        ensures
            final(self)@ == keystore@.state.deadline(),
            reconciles(action, old(self)@, keystore@.state.deadline()),
    {
        let deadline = keystore.deadline();
        let action = match (self.armed, deadline) {
            (None, None) => TimerAction::Keep,
            (Some(_), None) => TimerAction::Cancel,
            (None, Some(at)) => TimerAction::Arm(at),
            (Some(armed), Some(at)) => if armed == at {
                TimerAction::Keep
            } else {
                TimerAction::Arm(at)
            },
        };
        self.armed = deadline;
        action
    }

    /// The timer went off, and the clock stands at `now`: relocks the keystore if its
    /// window has passed, and says whether the timer is to be set again.
    pub fn fire(&mut self, keystore: &mut KeyStore, now: u64) -> (action: TimerAction)
        ensures
            final(keystore)@ == old(keystore)@.expire(now as int),
            final(keystore)@.wf(),
            final(self)@ == final(keystore)@.state.deadline(),
            reconciles(action, None, final(keystore)@.state.deadline()),
            final(keystore)@.state matches super::state::StateView::Unlocked { until, .. } ==> now
                < until,
    {
        keystore.expire(now);
        self.armed = None;
        self.reschedule(keystore)
    }
}

} // verus!
