//! What is drawn from a closed round: the submission that goes on chain and
//! the reward of every contribution.

use vstd::prelude::*;
use vstd::arithmetic::div_mod::*;
use vstd::arithmetic::mul::*;
use crate::bytes::{le_bytes, u64_to_le, write_bytes};
use crate::instruction::{instruction_data, submit_data, PoolInstruction, SubmitArgs};
use crate::round::{
    best_of, lemma_leader_exists, lemma_score_within_total, total_score, Contribution, Round,
    RoundStatus,
};

verus! {

/// The Keccak-256 hash of `data`.
pub uninterp spec fn keccak256(data: Seq<u8>) -> Seq<u8>;

/// `solana_program::keccak::hash`: the 32-byte Keccak-256 hash of `data`,
/// which depends on the bytes of `data` alone.
#[verifier::external_body]
fn keccak(data: &[u8]) -> (hash: [u8; 32])
    ensures
        hash@ == keccak256(data@),
{
    solana_program::keccak::hash(data).to_bytes()
}

/// What the attestation says of one contribution: the member's id, the
/// digest, the nonce and the score, the two numbers as eight little-endian
/// bytes each.
pub open spec fn contribution_record(contribution: Contribution) -> Seq<u8> {
    le_bytes(contribution.member_id as nat, 8) + contribution.solution.d@
        + contribution.solution.n@ + le_bytes(contribution.score as nat, 8)
}

/// The bytes that a round's attestation is the hash of: the records of its
/// contributions, in the order they were recorded.
pub open spec fn attestation_input(contributions: Seq<Contribution>) -> Seq<u8>
    decreases contributions.len(),
{
    if contributions.len() == 0 {
        Seq::empty()
    } else {
        attestation_input(contributions.drop_last()) + contribution_record(contributions.last())
    }
}

/// Computes the attestation of a round: the hash that commits the pool to
/// the contributions it has accepted.
pub fn attest(contributions: &Vec<Contribution>) -> (attestation: [u8; 32])
    ensures
        attestation@ == keccak256(attestation_input(contributions@)),
{
    let mut input: Vec<u8> = Vec::new();
    let mut i: usize = 0;
    while i < contributions.len()
        invariant
            i <= contributions@.len(),
            input@ == attestation_input(contributions@.take(i as int)),
        decreases contributions@.len() - i,
    {
        let contribution = contributions[i];
        let member = u64_to_le(contribution.member_id);
        let score = u64_to_le(contribution.score);
        proof {
            let next = contributions@.take(i + 1);
            assert(next.drop_last() =~= contributions@.take(i as int));
            assert(next.last() == contribution);
        }
        write_bytes(&mut input, &member);
        write_bytes(&mut input, &contribution.solution.d);
        write_bytes(&mut input, &contribution.solution.n);
        write_bytes(&mut input, &score);
        i = i + 1;
    }
    proof {
        assert(contributions@.take(i as int) =~= contributions@);
    }
    keccak(input.as_slice())
}

/// A reward that is owed to a member.
#[derive(Clone, Copy, Debug, PartialEq, Eq, Structural)]
pub struct Reward {
    pub member_id: u64,
    pub delta: u64,
}

/// The part of `budget` that a score of `score` earns in a round whose
/// scores sum to `total`: the budget times `score / total`, rounded down.
pub open spec fn share(budget: u64, score: u64, total: nat) -> nat {
    if total == 0 {
        0
    } else {
        budget as nat * score as nat / total
    }
}

/// The rewards of contributions when the round's scores sum to `total`: one
/// for each contribution, in order.
pub open spec fn rewards_at(contributions: Seq<Contribution>, budget: u64, total: nat) -> Seq<
    Reward,
> {
    Seq::new(
        contributions.len(),
        |i: int|
            Reward {
                member_id: contributions[i].member_id,
                delta: share(budget, contributions[i].score, total) as u64,
            },
    )
}

/// The rewards of a round: every contribution earns its share of the
/// budget, in proportion to its score.
pub open spec fn rewards(contributions: Seq<Contribution>, budget: u64) -> Seq<Reward> {
    rewards_at(contributions, budget, total_score(contributions))
}

/// The sum of the rewards.
pub open spec fn total_reward(rewards: Seq<Reward>) -> nat
    decreases rewards.len(),
{
    if rewards.len() == 0 {
        0
    } else {
        total_reward(rewards.drop_last()) + rewards.last().delta as nat
    }
}

/// A share never exceeds the budget when the score is part of the total.
pub proof fn lemma_share_within_budget(budget: u64, score: u64, total: nat)
    requires
        score <= total,
    ensures
        share(budget, score, total) <= budget,
{
    if total > 0 {
        let b = budget as int;
        let s = score as int;
        let t = total as int;
        lemma_mul_inequality(s, t, b);
        lemma_mul_is_commutative(s, b);
        lemma_mul_is_commutative(t, b);
        lemma_div_is_ordered(b * s, b * t, t);
        lemma_div_multiples_vanish(b, t);
    }
}

/// A higher score never earns a smaller share.
pub proof fn lemma_share_monotonic(budget: u64, lower: u64, higher: u64, total: nat)
    requires
        lower <= higher,
    ensures
        share(budget, lower, total) <= share(budget, higher, total),
{
    if total > 0 {
        let b = budget as int;
        lemma_mul_inequality(lower as int, higher as int, b);
        lemma_mul_is_commutative(lower as int, b);
        lemma_mul_is_commutative(higher as int, b);
        lemma_div_is_ordered(b * lower, b * higher, total as int);
    }
}

/// Rounding a share down loses less than one unit: `total` times the share
/// is at most `budget * score` and falls short of it by less than `total`.
proof fn lemma_share_rounding(budget: u64, score: u64, total: nat)
    requires
        total > 0,
    ensures
        total * share(budget, score, total) <= budget * score,
        budget * score <= total * share(budget, score, total) + total - 1,
{
    let product = budget as int * score as int;
    let t = total as int;
    lemma_fundamental_div_mod(product, t);
    lemma_mod_bound(product, t);
}

/// The partial sums behind `lemma_rewards_sum`.
proof fn lemma_rewards_sum_at(contributions: Seq<Contribution>, budget: u64, total: nat)
    requires
        total > 0,
        forall|i: int| 0 <= i < contributions.len() ==> (#[trigger] contributions[i]).score <= total,
    ensures
        total * total_reward(rewards_at(contributions, budget, total)) <= budget * total_score(
            contributions,
        ),
        budget * total_score(contributions) <= total * total_reward(
            rewards_at(contributions, budget, total),
        ) + contributions.len() * (total - 1),
    decreases contributions.len(),
{
    let all = rewards_at(contributions, budget, total);
    let t = total as int;
    let b = budget as int;
    if contributions.len() == 0 {
        assert(t * 0 == 0 && b * 0 == 0 && 0 * (t - 1) == 0) by (nonlinear_arith);
    } else {
        let before = contributions.drop_last();
        let last = contributions.last();
        assert(all.drop_last() =~= rewards_at(before, budget, total));
        lemma_rewards_sum_at(before, budget, total);
        lemma_share_rounding(budget, last.score, total);
        lemma_share_within_budget(budget, last.score, total);
        let r = total_reward(rewards_at(before, budget, total)) as int;
        let s = total_score(before) as int;
        let d = share(budget, last.score, total) as int;
        let n = before.len() as int;
        let x = last.score as int;
        assert(all.last().delta == d);
        assert(total_reward(all) == r + d);
        assert(total_score(contributions) == s + x);
        assert(t * (r + d) == t * r + t * d) by (nonlinear_arith);
        assert(b * (s + x) == b * s + b * x) by (nonlinear_arith);
        assert((n + 1) * (t - 1) == n * (t - 1) + t - 1) by (nonlinear_arith);
    }
}

/// The rewards of a round add up to the budget, within rounding: they never
/// exceed it, and they fall short of it by less than one unit for each
/// contribution.
pub proof fn lemma_rewards_sum(contributions: Seq<Contribution>, budget: u64)
    ensures
        total_reward(rewards(contributions, budget)) <= budget,
        total_score(contributions) > 0 ==> budget - total_reward(rewards(contributions, budget))
            < contributions.len(),
        total_score(contributions) == 0 ==> total_reward(rewards(contributions, budget)) == 0,
{
    let total = total_score(contributions);
    let sum = total_reward(rewards(contributions, budget)) as int;
    if total > 0 {
        assert forall|i: int| 0 <= i < contributions.len() implies (
        #[trigger] contributions[i]).score <= total by {
            lemma_score_within_total(contributions, i);
        }
        lemma_rewards_sum_at(contributions, budget, total);
        let t = total as int;
        let b = budget as int;
        let n = contributions.len() as int;
        assert(sum <= b) by (nonlinear_arith)
            requires
                t * sum <= b * t,
                t > 0,
        ;
        assert(n > 0);
        assert(b - sum < n) by (nonlinear_arith)
            requires
                b * t <= t * sum + n * (t - 1),
                t > 0,
                n > 0,
        {
            if b - sum >= n {
                assert(t * (b - sum) >= t * n);
                assert(t * (b - sum) == b * t - t * sum);
                assert(n * (t - 1) == t * n - n);
            }
        }
    } else {
        lemma_zero_total(rewards(contributions, budget));
    }
}

/// Rewards that are all zero sum to zero.
proof fn lemma_zero_total(rewards: Seq<Reward>)
    requires
        forall|i: int| 0 <= i < rewards.len() ==> (#[trigger] rewards[i]).delta == 0,
    ensures
        total_reward(rewards) == 0,
    decreases rewards.len(),
{
    if rewards.len() > 0 {
        lemma_zero_total(rewards.drop_last());
    }
}

/// Computes the reward of every contribution of a round whose scores sum
/// to `total`.
pub fn distribute(contributions: &Vec<Contribution>, total: u128, budget: u64) -> (owed: Vec<
    Reward,
>)
    requires
        total == total_score(contributions@),
    ensures
        owed@ == rewards(contributions@, budget),
{
    let mut owed: Vec<Reward> = Vec::new();
    let mut i: usize = 0;
    while i < contributions.len()
        invariant
            i <= contributions@.len(),
            total == total_score(contributions@),
            owed@ == rewards(contributions@, budget).take(i as int),
        decreases contributions@.len() - i,
    {
        let contribution = contributions[i];
        proof {
            lemma_score_within_total(contributions@, i as int);
            lemma_share_within_budget(budget, contribution.score, total as nat);
            assert(budget as nat * contribution.score as nat <= u128::MAX) by (nonlinear_arith)
                requires
                    budget <= u64::MAX,
                    contribution.score <= u64::MAX,
            ;
        }
        let delta: u64 = if total == 0 {
            0
        } else {
            ((budget as u128 * contribution.score as u128) / total) as u64
        };
        owed.push(Reward { member_id: contribution.member_id, delta });
        proof {
            assert(owed@ =~= rewards(contributions@, budget).take(i + 1));
        }
        i = i + 1;
    }
    proof {
        assert(rewards(contributions@, budget).take(i as int) =~= rewards(contributions@, budget));
    }
    owed
}

/// What a closed round sends on chain, and what it owes its members.
#[derive(Debug, PartialEq, Eq)]
pub struct Submission {
    /// The digest of the round's best solution.
    pub digest: [u8; 16],
    /// The nonce of the round's best solution.
    pub nonce: [u8; 8],
    /// The attestation of the round's contributions.
    pub attestation: [u8; 32],
    /// The data of the `Submit` instruction.
    pub data: Vec<u8>,
    /// The reward of every contribution, in the order they were recorded.
    pub rewards: Vec<Reward>,
}

impl Submission {
    /// Whether `self` is the submission of a round with these contributions.
    pub open spec fn is_for(self, contributions: Seq<Contribution>, batch_bump: u8, budget: u64) -> bool {
        &&& best_of(contributions) matches Some(i)
        &&& self.digest == contributions[i].solution.d
        &&& self.nonce == contributions[i].solution.n
        &&& self.attestation@ == keccak256(attestation_input(contributions))
        &&& self.data@ == instruction_data(
            PoolInstruction::Submit,
            (SubmitArgs {
                attestation: self.attestation,
                batch_bump,
                digest: self.digest,
                nonce: self.nonce,
            }).bytes(),
        )
        &&& self.rewards@ == rewards(contributions, budget)
    }
}

/// Builds the submission of a closed round.
///
/// The round's best contribution carries the attestation on chain: its
/// digest and nonce go into the `Submit` instruction, beside the attestation
/// of all the round's contributions and the bump of the batch account.
/// Every contribution, not only the best, is rewarded in proportion to its
/// score. A round without contributions has nothing to submit, which is no
/// error.
pub fn build_submission(round: &Round, batch_bump: u8, budget: u64) -> (submission: Option<
    Submission,
>)
    requires
        round.wf(),
        round@.status == RoundStatus::Closed,
    ensures
        submission is None <==> round@.contributions.len() == 0,
        submission matches Some(s) ==> s.is_for(round@.contributions, batch_bump, budget),
{
    let best = match round.best() {
        Some(best) => best,
        None => {
            return None;
        },
    };
    proof {
        lemma_leader_exists(round@.contributions);
    }
    let attestation = attest(round.contributions());
    let args = SubmitArgs {
        attestation,
        batch_bump,
        digest: best.solution.d,
        nonce: best.solution.n,
    };
    let data = submit_data(&args);
    let rewards = distribute(round.contributions(), round.total_score(), budget);
    Some(Submission { digest: best.solution.d, nonce: best.solution.n, attestation, data, rewards })
}

} // verus!
