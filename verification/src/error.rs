//! The pool's error taxonomy.

use vstd::prelude::*;

verus! {

/// Why the coordinator turned a request down.
///
/// Every rejection is local to the request that caused it: none of them
/// changes the state of the live round.
#[derive(Clone, Copy, Debug, PartialEq, Eq, Structural)]
pub enum PoolError {
    /// The signature does not verify against the authority's key.
    Unauthorized,
    /// The solution's difficulty is below the challenge's minimum.
    BelowMinDifficulty,
    /// The digest is not a valid proof of work for the challenge target.
    InvalidDigest,
    /// The nonce lies outside the range allocated to the member.
    NonceOutOfRange,
    /// The difficulty is so high that its score has no 64-bit value.
    ScoreOverflow,
    /// The contribution was made against a round that is no longer live.
    StaleRound,
    /// The round has no further disjoint window to hand out.
    SpaceExhausted,
    /// The transaction was not confirmed within the retry ceiling.
    ConfirmationTimeout,
}

/// Errors of the on-chain program's instruction handling.
#[derive(Clone, Copy, Debug, PartialEq, Eq, Structural)]
pub enum ProgramError {
    /// The instruction data does not have the layout of its argument record.
    InvalidInstructionData,
    /// The instruction came with the wrong number of accounts.
    NotEnoughAccountKeys,
    /// The member's balance does not cover the amount.
    InsufficientFunds,
}

} // verus!
