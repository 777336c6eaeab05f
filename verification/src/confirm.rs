//! Bounded retry for the confirmation of a submitted transaction.
//!
//! The waiting itself is done by the caller. After each confirmation check
//! the caller hands the outcome to `ConfirmState::step` and does what the
//! answer says: stop with success, stop with a timeout, or wait and check
//! again.

use vstd::prelude::*;
use crate::error::PoolError;

verus! {

/// How often to check for a confirmation, and how long to wait in between.
#[derive(Clone, Copy, Debug, PartialEq, Eq, Structural)]
pub struct ConfirmPolicy {
    /// The ceiling on the number of checks.
    pub max_attempts: u32,
    /// The pause between two checks, in seconds.
    pub interval_secs: u64,
}

/// Where a confirmation stands.
#[derive(Clone, Copy, Debug, PartialEq, Eq, Structural)]
pub enum ConfirmState {
    /// Not confirmed yet; `failed` checks have come back negative.
    Pending { failed: u32 },
    /// A check has found the transaction confirmed.
    Confirmed,
    /// The ceiling was reached without a confirmation.
    TimedOut,
}

/// What the caller is to do next.
#[derive(Clone, Copy, Debug, PartialEq, Eq, Structural)]
pub enum ConfirmAction {
    /// Check now.
    Check,
    /// Wait this many seconds, then check again.
    RetryAfter(u64),
    /// The transaction is confirmed: report success.
    Done,
    /// Give up: report a confirmation timeout.
    GiveUp,
}

/// What a confirmation check counts as: confirmed when the chain answered
/// and said so, not confirmed when it said otherwise or the check itself
/// failed, which `None` stands for.
pub open spec fn counts_as_confirmed(answer: Option<bool>) -> bool {
    answer == Some(true)
}

/// Reads the outcome of one confirmation check; a check that failed counts
/// as not confirmed.
pub fn check_outcome(answer: Option<bool>) -> (confirmed: bool)
    ensures
        confirmed == counts_as_confirmed(answer),
        confirmed == (answer == Some(true)),
{
    match answer {
        Some(confirmed) => confirmed,
        None => false,
    }
}

impl ConfirmPolicy {
    /// The baseline policy: five checks, two seconds apart.
    pub fn baseline() -> (policy: ConfirmPolicy)
        ensures
            policy == (ConfirmPolicy { max_attempts: 5, interval_secs: 2 }),
    {
        ConfirmPolicy { max_attempts: 5, interval_secs: 2 }
    }

    /// The state before the first check and what to do in it. A policy that
    /// allows no check at all times out at once.
    pub open spec fn start(self) -> (ConfirmState, ConfirmAction) {
        if self.max_attempts == 0 {
            (ConfirmState::TimedOut, ConfirmAction::GiveUp)
        } else {
            (ConfirmState::Pending { failed: 0 }, ConfirmAction::Check)
        }
    }

    /// Starts a confirmation.
    pub fn begin(&self) -> (first: (ConfirmState, ConfirmAction))
        ensures
            first == self.start(),
    {
        if self.max_attempts == 0 {
            (ConfirmState::TimedOut, ConfirmAction::GiveUp)
        } else {
            (ConfirmState::Pending { failed: 0 }, ConfirmAction::Check)
        }
    }
}

impl ConfirmState {
    /// The state after a check that found the transaction `confirmed` or
    /// not, and what to do then. A state that is final stays as it is.
    pub open spec fn next(self, policy: ConfirmPolicy, confirmed: bool) -> (
        ConfirmState,
        ConfirmAction,
    ) {
        match self {
            ConfirmState::Pending { failed } => {
                if confirmed {
                    (ConfirmState::Confirmed, ConfirmAction::Done)
                } else if failed + 1 >= policy.max_attempts {
                    (ConfirmState::TimedOut, ConfirmAction::GiveUp)
                } else {
                    (
                        ConfirmState::Pending { failed: (failed + 1) as u32 },
                        ConfirmAction::RetryAfter(policy.interval_secs),
                    )
                }
            },
            ConfirmState::Confirmed => (ConfirmState::Confirmed, ConfirmAction::Done),
            ConfirmState::TimedOut => (ConfirmState::TimedOut, ConfirmAction::GiveUp),
        }
    }

    /// The state after the checks `checks`, made one after another.
    pub open spec fn after(self, policy: ConfirmPolicy, checks: Seq<bool>) -> ConfirmState
        decreases checks.len(),
    {
        if checks.len() == 0 {
            self
        } else {
            self.next(policy, checks[0]).0.after(policy, checks.drop_first())
        }
    }

    /// What a confirmation has come to: nothing yet while it is pending,
    /// success once confirmed, `ConfirmationTimeout` once timed out.
    pub open spec fn outcome(self) -> Option<Result<(), PoolError>> {
        match self {
            ConfirmState::Pending { .. } => None,
            ConfirmState::Confirmed => Some(Ok(())),
            ConfirmState::TimedOut => Some(Err(PoolError::ConfirmationTimeout)),
        }
    }

    /// Reads off what the confirmation has come to.
    pub fn result(&self) -> (outcome: Option<Result<(), PoolError>>)
        ensures
            outcome == self.outcome(),
    {
        match self {
            ConfirmState::Pending { .. } => None,
            ConfirmState::Confirmed => Some(Ok(())),
            ConfirmState::TimedOut => Some(Err(PoolError::ConfirmationTimeout)),
        }
    }

    /// Takes in the outcome of one check.
    pub fn step(&self, policy: &ConfirmPolicy, confirmed: bool) -> (next: (
        ConfirmState,
        ConfirmAction,
    ))
        ensures
            next == self.next(*policy, confirmed),
    {
        match self {
            ConfirmState::Pending { failed } => {
                if confirmed {
                    (ConfirmState::Confirmed, ConfirmAction::Done)
                } else if *failed >= policy.max_attempts || *failed + 1 >= policy.max_attempts {
                    (ConfirmState::TimedOut, ConfirmAction::GiveUp)
                } else {
                    (
                        ConfirmState::Pending { failed: *failed + 1 },
                        ConfirmAction::RetryAfter(policy.interval_secs),
                    )
                }
            },
            ConfirmState::Confirmed => (ConfirmState::Confirmed, ConfirmAction::Done),
            ConfirmState::TimedOut => (ConfirmState::TimedOut, ConfirmAction::GiveUp),
        }
    }

    /// A run of checks ends in success exactly when one of the checks that
    /// the ceiling allows is positive, and in a timeout exactly when as many
    /// checks as the ceiling allows were made and all were negative.
    pub proof fn lemma_bounded_retry(self, policy: ConfirmPolicy, checks: Seq<bool>)
        requires
            self matches ConfirmState::Pending { failed } && failed < policy.max_attempts,
        ensures
            self.after(policy, checks) == ConfirmState::Confirmed <==> succeeds_within(
                checks,
                policy.max_attempts - self->failed,
            ),
            self.after(policy, checks) == ConfirmState::TimedOut <==> fails_through(
                checks,
                policy.max_attempts - self->failed,
            ),
        decreases checks.len(),
    {
        let left = policy.max_attempts - self->failed;
        if checks.len() > 0 {
            let rest = checks.drop_first();
            let state = self.next(policy, checks[0]).0;
            if checks[0] {
                state.lemma_final_stays(policy, rest);
            } else if left == 1 {
                state.lemma_final_stays(policy, rest);
            } else {
                state.lemma_bounded_retry(policy, rest);
                if succeeds_within(rest, left - 1) {
                    let k = choose|k: int| 0 <= k < rest.len() && k < left - 1 && #[trigger] rest[k];
                    assert(checks[k + 1]);
                }
                if succeeds_within(checks, left) {
                    let k = choose|k: int| 0 <= k < checks.len() && k < left && #[trigger] checks[k];
                    assert(rest[k - 1]);
                }
                if fails_through(rest, left - 1) {
                    assert forall|k: int| 0 <= k < left implies !#[trigger] checks[k] by {
                        if k > 0 {
                            assert(!rest[k - 1]);
                        }
                    }
                }
                if fails_through(checks, left) {
                    assert forall|k: int| 0 <= k < left - 1 implies !#[trigger] rest[k] by {
                        assert(!checks[k + 1]);
                    }
                }
            }
        }
    }

    /// Once a confirmation has succeeded or timed out, further checks do not
    /// change it.
    pub proof fn lemma_final_stays(self, policy: ConfirmPolicy, checks: Seq<bool>)
        requires
            !(self is Pending),
        ensures
            self.after(policy, checks) == self,
        decreases checks.len(),
    {
        if checks.len() > 0 {
            self.lemma_final_stays(policy, checks.drop_first());
        }
    }
}

/// Whether one of the first `ceiling` checks is positive.
pub open spec fn succeeds_within(checks: Seq<bool>, ceiling: int) -> bool {
    exists|k: int| 0 <= k < checks.len() && k < ceiling && #[trigger] checks[k]
}

/// Whether at least `ceiling` checks were made and the first `ceiling` of
/// them are all negative.
pub open spec fn fails_through(checks: Seq<bool>, ceiling: int) -> bool {
    ceiling <= checks.len() && forall|k: int| 0 <= k < ceiling ==> !#[trigger] checks[k]
}

} // verus!
