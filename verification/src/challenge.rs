//! The proof-of-work challenge of a round.

use vstd::prelude::*;

verus! {

/// The target and minimum difficulty that are live for one round.
///
/// A challenge is never changed once published; rotation replaces it.
#[derive(Clone, Copy, Debug, PartialEq, Eq)]
pub struct Challenge {
    /// The 32-byte digest that solutions are checked against.
    pub target: [u8; 32],
    /// The least difficulty a solution must reach to be accepted.
    pub min_difficulty: u64,
    /// The round this challenge belongs to; grows by one on each rotation.
    pub round_id: u64,
    /// When the round started, in seconds.
    pub started_at: u64,
}

} // verus!
