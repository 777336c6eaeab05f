//! The aggregator: the state of the live round and the operations on it.
//!
//! An `Aggregator` is a plain state object. Whoever shares it between
//! workers keeps it behind one lock and holds the lock for one operation at a
//! time; validation of solutions works on a snapshot and needs no lock.

use std::collections::HashMap;
use vstd::prelude::*;
use crate::challenge::Challenge;
use crate::error::PoolError;
use crate::nonce::{AllocationPolicy, NonceRange};
use crate::round::{leads, Contribution, Round, RoundStatus, RoundView};

verus! {

broadcast use vstd::std_specs::hash::group_hash_axioms;

/// What `record_contribution` answers for an accepted contribution.
#[derive(Clone, Copy, Debug, PartialEq, Eq, Structural)]
pub struct Receipt {
    /// The score that was added to the round's total.
    pub score: u64,
    /// Whether the contribution is now the round's best.
    pub best: bool,
}

/// The mathematical content of an aggregator.
pub struct AggregatorView {
    pub policy: AllocationPolicy,
    /// The allocation table: for each member that holds a range in the live
    /// round, the number of windows that had been handed out before its own.
    /// The size of the table is the round's cursor: the number of windows
    /// handed out so far.
    pub table: Map<u64, u64>,
    pub round: RoundView,
}

impl AggregatorView {
    /// The identifier of the live round.
    pub open spec fn round_id(self) -> u64 {
        self.round.challenge.round_id
    }

    /// The window handed out after `ordinal` others in the live round, as
    /// held by `member_id`.
    pub open spec fn window(self, ordinal: u64, member_id: u64) -> NonceRange {
        NonceRange {
            member_id,
            start: self.policy.window_start(ordinal as nat) as u64,
            end: self.policy.window_end(ordinal as nat) as u64,
        }
    }

    /// The range that `member_id` holds in the live round, if any.
    pub open spec fn range_of(self, member_id: u64) -> Option<NonceRange> {
        if self.table.contains_key(member_id) {
            Some(self.window(self.table[member_id], member_id))
        } else {
            None
        }
    }

    /// The invariant of the live round: it is open, its contributions were
    /// made against its own challenge, and the allocation table holds no more
    /// members than the policy has windows, each with a window of its own.
    pub open spec fn wf(self) -> bool {
        &&& self.policy.wf()
        &&& self.round.status == RoundStatus::Open
        &&& self.round.wf()
        &&& self.table.dom().finite()
        &&& self.table.len() <= self.policy.spec_expected_pool_size()
        &&& forall|m: u64| #[trigger] self.table.contains_key(m) ==> self.table[m] < self.table.len()
        &&& forall|a: u64, b: u64|
            #![trigger self.table[a], self.table[b]]
            self.table.contains_key(a) && self.table.contains_key(b) && a != b ==> self.table[a]
                != self.table[b]
    }

    /// The effect of `rotate_challenge`: the new state, and the round that
    /// was live, closed.
    pub open spec fn rotate(self, target: [u8; 32], min_difficulty: u64, started_at: u64) -> (
        AggregatorView,
        RoundView,
    ) {
        (
            AggregatorView {
                policy: self.policy,
                table: Map::empty(),
                round: RoundView {
                    challenge: Challenge {
                        target,
                        min_difficulty,
                        round_id: (self.round_id() + 1) as u64,
                        started_at,
                    },
                    status: RoundStatus::Open,
                    contributions: Seq::empty(),
                },
            },
            RoundView { status: RoundStatus::Closed, ..self.round },
        )
    }

    /// The effect of `allocate_range`: the new state and the answer.
    ///
    /// A member that holds a range gets that range again. Another member gets
    /// the next window, as long as the policy has one left.
    pub open spec fn allocate(self, member_id: u64) -> (
        AggregatorView,
        Result<NonceRange, PoolError>,
    ) {
        if self.table.contains_key(member_id) {
            (self, Ok(self.window(self.table[member_id], member_id)))
        } else if self.table.len() < self.policy.spec_expected_pool_size() {
            let ordinal = self.table.len() as u64;
            (
                AggregatorView { table: self.table.insert(member_id, ordinal), ..self },
                Ok(self.window(ordinal, member_id)),
            )
        } else {
            (self, Err(PoolError::SpaceExhausted))
        }
    }

    /// The effect of `record_contribution`: the new state and the answer.
    ///
    /// A contribution made against another round than the live one is
    /// rejected and changes nothing. Any other is appended.
    pub open spec fn record(self, contribution: Contribution) -> (
        AggregatorView,
        Result<Receipt, PoolError>,
    ) {
        if contribution.round_id != self.round_id() {
            (self, Err(PoolError::StaleRound))
        } else {
            let contributions = self.round.contributions.push(contribution);
            (
                AggregatorView { round: RoundView { contributions, ..self.round }, ..self },
                Ok(
                    Receipt {
                        score: contribution.score,
                        best: leads(contributions, contributions.len() - 1),
                    },
                ),
            )
        }
    }

    /// Rotation leaves a well-formed state with an empty table and no
    /// contributions, one round further on.
    pub proof fn lemma_rotate_wf(self, target: [u8; 32], min_difficulty: u64, started_at: u64)
        requires
            self.wf(),
            self.round_id() < u64::MAX,
        ensures
            self.rotate(target, min_difficulty, started_at).0.wf(),
            self.rotate(target, min_difficulty, started_at).0.round_id() == self.round_id() + 1,
            self.rotate(target, min_difficulty, started_at).1.wf(),
    {
    }

    /// Allocation keeps the state well formed, and every range that was held
    /// before is held unchanged after.
    pub proof fn lemma_allocate_wf(self, member_id: u64)
        requires
            self.wf(),
        ensures
            self.allocate(member_id).0.wf(),
            forall|m: u64| #[trigger]
                self.table.contains_key(m) ==> self.allocate(member_id).0.range_of(m)
                    == self.range_of(m),
            self.allocate(member_id).1 matches Ok(range) ==> self.allocate(member_id).0.range_of(
                member_id,
            ) == Some(range),
    {
        let after = self.allocate(member_id).0;
        if !self.table.contains_key(member_id) && self.table.len()
            < self.policy.spec_expected_pool_size() {
            assert(after.table.dom() =~= self.table.dom().insert(member_id));
        }
    }

    /// Recording keeps the state well formed.
    pub proof fn lemma_record_wf(self, contribution: Contribution)
        requires
            self.wf(),
        ensures
            self.record(contribution).0.wf(),
    {
    }

    /// Within a round, the ranges of two different members never overlap.
    pub proof fn lemma_ranges_disjoint(self, a: u64, b: u64)
        requires
            self.wf(),
            a != b,
            self.range_of(a) is Some,
            self.range_of(b) is Some,
        ensures
            self.range_of(a)->Some_0.disjoint(self.range_of(b)->Some_0),
            self.range_of(a)->Some_0.start < self.range_of(a)->Some_0.end,
    {
        let i = self.table[a] as nat;
        let j = self.table[b] as nat;
        assert(self.table.contains_key(a) && self.table.contains_key(b));
        self.policy.lemma_window_fits(i);
        self.policy.lemma_window_fits(j);
        if i < j {
            self.policy.lemma_windows_disjoint(i, j);
        } else {
            self.policy.lemma_windows_disjoint(j, i);
        }
    }

    /// A member that holds no range yet is given the window at the cursor:
    /// after `k` others have been served it gets the nonces from `k` times
    /// the window size to `k + 1` times the window size, in every round.
    pub proof fn lemma_allocate_next_window(self, member_id: u64)
        requires
            self.wf(),
            !self.table.contains_key(member_id),
            self.table.len() < self.policy.spec_expected_pool_size(),
        ensures
            self.allocate(member_id).1 == Ok::<NonceRange, PoolError>(
                NonceRange {
                    member_id,
                    start: (self.table.len() * self.policy.window()) as u64,
                    end: ((self.table.len() + 1) * self.policy.window()) as u64,
                },
            ),
            (self.table.len() + 1) * self.policy.window() <= self.policy.spec_space_size(),
            self.allocate(member_id).0.table.len() == self.table.len() + 1,
    {
        let k = self.table.len();
        self.policy.lemma_window_fits(k);
        self.policy.lemma_windows_adjoin(k);
        assert(self.allocate(member_id).0.table.dom() =~= self.table.dom().insert(member_id));
    }

    /// The state after the members `members` have asked for a range one
    /// after another.
    pub open spec fn serve(self, members: Seq<u64>) -> AggregatorView
        decreases members.len(),
    {
        if members.len() == 0 {
            self
        } else {
            self.serve(members.drop_last()).allocate(members.last()).0
        }
    }

    /// The answer to the request at position `i` of `members`.
    pub open spec fn answer(self, members: Seq<u64>, i: int) -> Result<NonceRange, PoolError> {
        self.serve(members.take(i)).allocate(members[i]).1
    }

    /// Serving requests keeps the state well formed, and every range that
    /// was held before is held unchanged after.
    pub proof fn lemma_serve_wf(self, members: Seq<u64>)
        requires
            self.wf(),
        ensures
            self.serve(members).wf(),
            forall|m: u64| #[trigger]
                self.table.contains_key(m) ==> self.serve(members).range_of(m) == self.range_of(m),
        decreases members.len(),
    {
        if members.len() > 0 {
            let before = self.serve(members.drop_last());
            self.lemma_serve_wf(members.drop_last());
            before.lemma_allocate_wf(members.last());
            assert forall|m: u64| #[trigger] self.table.contains_key(m) implies self.serve(
                members,
            ).range_of(m) == self.range_of(m) by {
                assert(before.range_of(m) == self.range_of(m));
                assert(before.table.contains_key(m));
            }
        }
    }

    /// A range that was handed out at position `i` is still held, unchanged,
    /// after all the requests have been served.
    proof fn lemma_answer_kept(self, members: Seq<u64>, i: int)
        requires
            self.wf(),
            0 <= i < members.len(),
            self.answer(members, i) is Ok,
        ensures
            self.serve(members).range_of(members[i]) == Some(self.answer(members, i)->Ok_0),
        decreases members.len(),
    {
        let before = self.serve(members.drop_last());
        self.lemma_serve_wf(members.drop_last());
        before.lemma_allocate_wf(members.last());
        if i == members.len() - 1 {
            assert(members.take(i) =~= members.drop_last());
        } else {
            assert(members.drop_last().take(i) =~= members.take(i));
            self.lemma_answer_kept(members.drop_last(), i);
            assert(before.table.contains_key(members[i]));
        }
    }

    /// However many members ask for a range in a round, in whatever order,
    /// no two of the ranges handed out overlap: requests of the same member
    /// are answered with the same range, requests of different members with
    /// disjoint ranges.
    pub proof fn lemma_issued_ranges_disjoint(self, members: Seq<u64>, i: int, j: int)
        requires
            self.wf(),
            0 <= i < members.len(),
            0 <= j < members.len(),
            self.answer(members, i) is Ok,
            self.answer(members, j) is Ok,
        ensures
            members[i] == members[j] ==> self.answer(members, i) == self.answer(members, j),
            members[i] != members[j] ==> self.answer(members, i)->Ok_0.disjoint(
                self.answer(members, j)->Ok_0,
            ),
    {
        self.lemma_answer_kept(members, i);
        self.lemma_answer_kept(members, j);
        self.lemma_serve_wf(members);
        if members[i] != members[j] {
            self.serve(members).lemma_ranges_disjoint(members[i], members[j]);
        }
    }

    /// Asking twice gives the same range both times, and the second request
    /// changes nothing.
    pub proof fn lemma_allocate_idempotent(self, member_id: u64)
        requires
            self.wf(),
        ensures
            ({
                let (first_state, first) = self.allocate(member_id);
                let (second_state, second) = first_state.allocate(member_id);
                second == first && second_state == first_state
            }),
    {
    }

    /// A request that is turned down leaves the state as it was.
    pub proof fn lemma_rejections_change_nothing(self, member_id: u64, contribution: Contribution)
        ensures
            self.allocate(member_id).1 is Err ==> self.allocate(member_id).0 == self,
            self.record(contribution).1 is Err ==> self.record(contribution).0 == self,
    {
    }

    /// A contribution whose round is not the live one is turned down as
    /// stale, whatever else it holds, and leaves the state as it was.
    pub proof fn lemma_stale_rejected(self, contribution: Contribution)
        requires
            contribution.round_id != self.round_id(),
        ensures
            self.record(contribution) == (self, Err::<Receipt, PoolError>(PoolError::StaleRound)),
    {
    }

    /// After a rotation every contribution made against the round before it
    /// is stale.
    pub proof fn lemma_rotation_outdates(
        self,
        target: [u8; 32],
        min_difficulty: u64,
        started_at: u64,
        contribution: Contribution,
    )
        requires
            self.round_id() < u64::MAX,
            contribution.round_id == self.round_id(),
        ensures
            self.rotate(target, min_difficulty, started_at).0.record(contribution).1 == Err::<
                Receipt,
                PoolError,
            >(PoolError::StaleRound),
    {
    }
}

/// The coordinator's state: the allocation policy, the live round and the
/// ranges handed out in it.
pub struct Aggregator {
    policy: AllocationPolicy,
    table: HashMap<u64, u64>,
    round: Round,
}

impl View for Aggregator {
    type V = AggregatorView;

    closed spec fn view(&self) -> AggregatorView {
        AggregatorView { policy: self.policy, table: self.table@, round: self.round@ }
    }
}

impl Aggregator {
    /// The aggregator's invariant.
    pub closed spec fn wf(&self) -> bool {
        self@.wf() && self.round.wf()
    }

    /// What `wf` says of the state's mathematical content.
    pub proof fn lemma_wf_view(&self)
        requires
            self.wf(),
        ensures
            self@.wf(),
    {
    }

    /// An aggregator whose first round, round zero, is open for the given
    /// target and minimum difficulty.
    pub fn new(policy: AllocationPolicy, target: [u8; 32], min_difficulty: u64, started_at: u64) -> (aggregator:
        Aggregator)
        ensures
            aggregator.wf(),
            aggregator@ == (AggregatorView {
                policy,
                table: Map::empty(),
                round: RoundView {
                    challenge: Challenge { target, min_difficulty, round_id: 0, started_at },
                    status: RoundStatus::Open,
                    contributions: Seq::empty(),
                },
            }),
    {
        proof {
            use_type_invariant(&policy);
        }
        let challenge = Challenge { target, min_difficulty, round_id: 0, started_at };
        Aggregator { policy, table: HashMap::new(), round: Round::open(challenge) }
    }

    /// Replaces the challenge: the live round is closed and handed back, and
    /// a new round opens with the next round id, an empty allocation table
    /// and no contributions.
    pub fn rotate_challenge(&mut self, target: [u8; 32], min_difficulty: u64, started_at: u64) -> (closed:
        Round)
        requires
            old(self).wf(),
            old(self)@.round_id() < u64::MAX,
        ensures
            final(self).wf(),
            closed.wf(),
            (final(self)@, closed@) == old(self)@.rotate(target, min_difficulty, started_at),
    {
        let challenge = Challenge {
            target,
            min_difficulty,
            round_id: self.round.round_id() + 1,
            started_at,
        };
        let mut closed = Round::open(challenge);
        std::mem::swap(&mut self.round, &mut closed);
        closed.close();
        self.table.clear();
        closed
    }

    /// Hands `member_id` its range for the live round.
    ///
    /// A member that asks again within the round gets the range it already
    /// holds. A new member gets the next unused window; when the policy has
    /// none left the answer is `SpaceExhausted`.
    pub fn allocate_range(&mut self, member_id: u64) -> (result: Result<NonceRange, PoolError>)
        requires
            old(self).wf(),
        ensures
            final(self).wf(),
            (final(self)@, result) == old(self)@.allocate(member_id),
    {
        proof {
            self@.lemma_allocate_wf(member_id);
        }
        match self.table.get(&member_id) {
            Some(ordinal) => {
                let ordinal: u64 = *ordinal;
                Ok(self.policy.nth_window(ordinal, member_id))
            },
            None => {
                let issued: u64 = self.table.len() as u64;
                if issued < self.policy.expected_pool_size() {
                    self.table.insert(member_id, issued);
                    Ok(self.policy.nth_window(issued, member_id))
                } else {
                    Err(PoolError::SpaceExhausted)
                }
            },
        }
    }

    /// The range that `member_id` holds in the live round, if any.
    pub fn range_of(&self, member_id: u64) -> (range: Option<NonceRange>)
        requires
            self.wf(),
        ensures
            range == self@.range_of(member_id),
    {
        match self.table.get(&member_id) {
            Some(ordinal) => {
                let ordinal: u64 = *ordinal;
                Some(self.policy.nth_window(ordinal, member_id))
            },
            None => None,
        }
    }

    /// Records a validated contribution in the live round.
    ///
    /// A contribution whose round id is not the live one is rejected with
    /// `StaleRound` and changes nothing. Any other is appended, its score is
    /// added to the running total, and it becomes the round's best if it
    /// outranks the best so far.
    pub fn record_contribution(&mut self, contribution: Contribution) -> (result: Result<
        Receipt,
        PoolError,
    >)
        requires
            old(self).wf(),
        ensures
            final(self).wf(),
            (final(self)@, result) == old(self)@.record(contribution),
    {
        if contribution.round_id != self.round.round_id() {
            return Err(PoolError::StaleRound);
        }
        let best = self.round.record(contribution);
        Ok(Receipt { score: contribution.score, best })
    }

    /// A copy of the live challenge, for validating solutions without
    /// holding on to the aggregator.
    pub fn snapshot_for_validation(&self) -> (challenge: Challenge)
        ensures
            challenge == self@.round.challenge,
    {
        self.round.challenge()
    }

    /// The identifier of the live round.
    pub fn round_id(&self) -> (id: u64)
        ensures
            id == self@.round_id(),
    {
        self.round.round_id()
    }

    /// The live round.
    pub fn round(&self) -> (round: &Round)
        ensures
            round@ == self@.round,
            self.wf() ==> round.wf(),
    {
        &self.round
    }

    /// The allocation policy.
    pub fn policy(&self) -> (policy: AllocationPolicy)
        ensures
            policy == self@.policy,
    {
        self.policy
    }
}

} // verus!
