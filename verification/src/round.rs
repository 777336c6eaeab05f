//! The ledger of one round: its challenge and the contributions it accepted.

use vstd::prelude::*;
use crate::challenge::Challenge;
use crate::validator::Solution;

verus! {

/// A validated solution, credited to a member for one round.
#[derive(Clone, Copy, Debug, PartialEq, Eq)]
pub struct Contribution {
    pub member_id: u64,
    pub round_id: u64,
    pub solution: Solution,
    pub score: u64,
    /// When the coordinator received it, in seconds.
    pub received_at: u64,
}

impl Contribution {
    /// Whether `self` ranks strictly ahead of `other`: it scores higher, or
    /// scores the same and arrived earlier.
    pub open spec fn outranks(self, other: Contribution) -> bool {
        self.score > other.score || (self.score == other.score && self.received_at
            < other.received_at)
    }

    /// Tests whether `self` ranks strictly ahead of `other`.
    pub fn ranks_ahead_of(&self, other: &Contribution) -> (ahead: bool)
        ensures
            ahead == self.outranks(*other),
    {
        self.score > other.score || (self.score == other.score && self.received_at
            < other.received_at)
    }
}

/// Where a round stands in its life.
///
/// A round is `Open` while it accepts allocations and contributions.
/// Rotation takes it to `Closing` and on to `Closed`, in which state it is
/// handed over to be submitted.
#[derive(Clone, Copy, Debug, PartialEq, Eq, Structural)]
pub enum RoundStatus {
    Open,
    Closing,
    Closed,
}

impl RoundStatus {
    /// The status that follows `self`; `Closed` is final.
    pub open spec fn next(self) -> RoundStatus {
        match self {
            RoundStatus::Open => RoundStatus::Closing,
            RoundStatus::Closing => RoundStatus::Closed,
            RoundStatus::Closed => RoundStatus::Closed,
        }
    }

    /// Moves one step on.
    pub fn advance(self) -> (status: RoundStatus)
        ensures
            status == self.next(),
    {
        match self {
            RoundStatus::Open => RoundStatus::Closing,
            RoundStatus::Closing => RoundStatus::Closed,
            RoundStatus::Closed => RoundStatus::Closed,
        }
    }
}

/// The sum of the scores of `contributions`.
pub open spec fn total_score(contributions: Seq<Contribution>) -> nat
    decreases contributions.len(),
{
    if contributions.len() == 0 {
        0
    } else {
        total_score(contributions.drop_last()) + contributions.last().score as nat
    }
}

/// Whether the contribution at `i` is the round's best: it outranks every
/// earlier one, and no later one outranks it. Among contributions that tie
/// on score and on arrival time the first recorded is the best.
pub open spec fn leads(contributions: Seq<Contribution>, i: int) -> bool {
    &&& 0 <= i < contributions.len()
    &&& forall|j: int| 0 <= j < i ==> contributions[i].outranks(#[trigger] contributions[j])
    &&& forall|j: int|
        i < j < contributions.len() ==> !(#[trigger] contributions[j]).outranks(contributions[i])
}

/// The position of the best contribution; `None` when there is none.
pub open spec fn best_of(contributions: Seq<Contribution>) -> Option<int> {
    if contributions.len() == 0 {
        None
    } else {
        Some(choose|i: int| leads(contributions, i))
    }
}

/// At most one contribution leads.
pub proof fn lemma_leader_unique(contributions: Seq<Contribution>, i: int, k: int)
    requires
        leads(contributions, i),
        leads(contributions, k),
    ensures
        i == k,
{
    if i < k {
        assert(contributions[k].outranks(contributions[i]));
    } else if k < i {
        assert(contributions[i].outranks(contributions[k]));
    }
}

/// The leader has the highest score of the round, and among those that
/// score as high none arrived before it.
pub proof fn lemma_leader_is_highest(contributions: Seq<Contribution>, i: int, j: int)
    requires
        leads(contributions, i),
        0 <= j < contributions.len(),
    ensures
        contributions[j].score <= contributions[i].score,
        contributions[j].score == contributions[i].score ==> contributions[i].received_at
            <= contributions[j].received_at,
{
    if j < i {
        assert(contributions[i].outranks(contributions[j]));
    } else if j > i {
        assert(!contributions[j].outranks(contributions[i]));
    }
}

/// How the leader moves when one more contribution is recorded: the newcomer
/// leads if it outranks the old leader (or is the first), else the old
/// leader stays.
pub proof fn lemma_leader_after_push(contributions: Seq<Contribution>, i: int, c: Contribution)
    requires
        leads(contributions, i),
    ensures
        c.outranks(contributions[i]) ==> leads(contributions.push(c), contributions.len() as int),
        !c.outranks(contributions[i]) ==> leads(contributions.push(c), i),
{
    let after = contributions.push(c);
    let last = contributions.len() as int;
    if c.outranks(contributions[i]) {
        assert forall|j: int| 0 <= j < last implies after[last].outranks(#[trigger] after[j]) by {
            if j < i {
                assert(contributions[i].outranks(contributions[j]));
            } else if j > i {
                assert(!contributions[j].outranks(contributions[i]));
            }
        }
    } else {
        assert forall|j: int| 0 <= j < i implies after[i].outranks(#[trigger] after[j]) by {
            assert(contributions[i].outranks(contributions[j]));
        }
        assert forall|j: int| i < j < after.len() implies !(#[trigger] after[j]).outranks(
            after[i],
        ) by {
            if j < last {
                assert(!contributions[j].outranks(contributions[i]));
            }
        }
    }
}

/// Every non-empty round has a leader, and `best_of` names it.
pub proof fn lemma_leader_exists(contributions: Seq<Contribution>)
    requires
        contributions.len() > 0,
    ensures
        best_of(contributions) matches Some(i) && leads(contributions, i),
    decreases contributions.len(),
{
    let before = contributions.drop_last();
    let c = contributions.last();
    assert(before.push(c) =~= contributions);
    if before.len() == 0 {
        assert(leads(contributions, 0));
    } else {
        lemma_leader_exists(before);
        let i = best_of(before)->Some_0;
        lemma_leader_after_push(before, i, c);
        if c.outranks(before[i]) {
            assert(leads(contributions, before.len() as int));
        } else {
            assert(leads(contributions, i));
        }
    }
}

/// The sum of `n` scores is at most `n` times the largest 64-bit number.
pub proof fn lemma_total_score_bound(contributions: Seq<Contribution>)
    ensures
        total_score(contributions) <= contributions.len() * u64::MAX,
    decreases contributions.len(),
{
    if contributions.len() > 0 {
        lemma_total_score_bound(contributions.drop_last());
        assert(contributions.len() * u64::MAX == contributions.drop_last().len() * u64::MAX
            + u64::MAX) by (nonlinear_arith)
            requires
                contributions.drop_last().len() == contributions.len() - 1,
        ;
    }
}

/// No score exceeds the total.
pub proof fn lemma_score_within_total(contributions: Seq<Contribution>, i: int)
    requires
        0 <= i < contributions.len(),
    ensures
        contributions[i].score <= total_score(contributions),
    decreases contributions.len(),
{
    if i < contributions.len() - 1 {
        lemma_score_within_total(contributions.drop_last(), i);
    }
}

/// The mathematical content of a round.
pub struct RoundView {
    pub challenge: Challenge,
    pub status: RoundStatus,
    /// The accepted contributions, in the order they were recorded.
    pub contributions: Seq<Contribution>,
}

impl RoundView {
    /// Every recorded contribution was made against this round's challenge.
    pub open spec fn wf(self) -> bool {
        forall|i: int|
            0 <= i < self.contributions.len() ==> (#[trigger] self.contributions[i]).round_id
                == self.challenge.round_id
    }

    /// The running total of the round's scores.
    pub open spec fn total_score(self) -> nat {
        total_score(self.contributions)
    }

    /// The round's best contribution, if it has any.
    pub open spec fn best(self) -> Option<Contribution> {
        match best_of(self.contributions) {
            Some(i) => Some(self.contributions[i]),
            None => None,
        }
    }
}

/// One round's challenge, accepted contributions, running total and best
/// contribution.
pub struct Round {
    challenge: Challenge,
    status: RoundStatus,
    contributions: Vec<Contribution>,
    total_score: u128,
    best: Option<usize>,
}

impl View for Round {
    type V = RoundView;

    closed spec fn view(&self) -> RoundView {
        RoundView {
            challenge: self.challenge,
            status: self.status,
            contributions: self.contributions@,
        }
    }
}

impl Round {
    /// The round's view is well formed, and the running total and the best
    /// pointer agree with the recorded contributions.
    pub closed spec fn wf(&self) -> bool {
        &&& self@.wf()
        &&& self.total_score == total_score(self.contributions@)
        &&& match self.best {
            Some(i) => leads(self.contributions@, i as int),
            None => self.contributions@.len() == 0,
        }
    }

    /// A fresh, open round for `challenge`.
    pub fn open(challenge: Challenge) -> (round: Round)
        ensures
            round.wf(),
            round@ == (RoundView {
                challenge,
                status: RoundStatus::Open,
                contributions: Seq::empty(),
            }),
    {
        Round {
            challenge,
            status: RoundStatus::Open,
            contributions: Vec::new(),
            total_score: 0,
            best: None,
        }
    }

    /// Appends a contribution made against this round's challenge to the
    /// round, which must be open; tells whether it has become the round's
    /// best.
    pub fn record(&mut self, contribution: Contribution) -> (leading: bool)
        requires
            old(self).wf(),
            old(self)@.status == RoundStatus::Open,
            contribution.round_id == old(self)@.challenge.round_id,
        ensures
            final(self).wf(),
            final(self)@ == (RoundView {
                contributions: old(self)@.contributions.push(contribution),
                ..old(self)@
            }),
            leading == leads(final(self)@.contributions, final(self)@.contributions.len() - 1),
    {
        let ghost before = self.contributions@;
        let position: usize = self.contributions.len();
        let leading = match self.best {
            Some(i) => contribution.ranks_ahead_of(&self.contributions[i]),
            None => true,
        };
        proof {
            let after = before.push(contribution);
            assert(after.drop_last() =~= before);
            lemma_total_score_bound(before);
            assert(before.len() * u64::MAX + u64::MAX <= u128::MAX) by (nonlinear_arith)
                requires
                    before.len() <= u64::MAX,
            ;
            match self.best {
                Some(i) => {
                    lemma_leader_after_push(before, i as int, contribution);
                    if !leading {
                        if leads(after, position as int) {
                            lemma_leader_unique(after, i as int, position as int);
                        }
                    }
                },
                None => {
                    assert(leads(after, 0));
                },
            }
        }
        self.total_score = self.total_score + contribution.score as u128;
        if leading {
            self.best = Some(position);
        }
        self.contributions.push(contribution);
        leading
    }

    /// Closes the round: no further contribution is recorded in it.
    pub fn close(&mut self)
        requires
            old(self).wf(),
        ensures
            final(self).wf(),
            final(self)@ == (RoundView { status: RoundStatus::Closed, ..old(self)@ }),
    {
        self.status = self.status.advance();
        self.status = self.status.advance();
    }

    /// The round's challenge.
    pub fn challenge(&self) -> (challenge: Challenge)
        ensures
            challenge == self@.challenge,
    {
        self.challenge
    }

    /// The round's identifier.
    pub fn round_id(&self) -> (id: u64)
        ensures
            id == self@.challenge.round_id,
    {
        self.challenge.round_id
    }

    /// Where the round stands.
    pub fn status(&self) -> (status: RoundStatus)
        ensures
            status == self@.status,
    {
        self.status
    }

    /// The contributions recorded so far, in order.
    pub fn contributions(&self) -> (recorded: &Vec<Contribution>)
        ensures
            recorded@ == self@.contributions,
    {
        &self.contributions
    }

    /// The sum of the recorded scores.
    pub fn total_score(&self) -> (total: u128)
        requires
            self.wf(),
        ensures
            total == self@.total_score(),
    {
        self.total_score
    }

    /// The best contribution recorded so far.
    pub fn best(&self) -> (leader: Option<Contribution>)
        requires
            self.wf(),
        ensures
            leader == self@.best(),
    {
        proof {
            if self.contributions@.len() > 0 {
                lemma_leader_exists(self.contributions@);
                lemma_leader_unique(
                    self.contributions@,
                    self.best->Some_0 as int,
                    best_of(self.contributions@)->Some_0,
                );
            }
        }
        match self.best {
            Some(i) => Some(self.contributions[i]),
            None => None,
        }
    }
}

} // verus!
