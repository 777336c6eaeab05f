//! Coordinator core of a proof-of-work mining pool.
//!
//! Members of the pool search disjoint ranges of the nonce space for
//! solutions to a rotating challenge and are rewarded in proportion to the
//! difficulty they contribute. This crate holds the coordinator's rules:
//!
//! - [`aggregator`] is the state of the live round: it rotates challenges,
//!   hands out nonce ranges and records contributions;
//! - [`nonce`] cuts the nonce space into windows, and [`round`] is the
//!   ledger of a round;
//! - [`validator`] checks and scores a submitted solution;
//! - [`submission`] draws the on-chain submission and the rewards from a
//!   closed round;
//! - [`confirm`] decides how long to wait for the chain's confirmation;
//! - [`contributor`] holds the decisions behind the coordinator's
//!   endpoints, [`member`] the member records;
//! - [`instruction`] and [`program`] are the pool program's instruction
//!   encoding and what it reads from an instruction.
//!
//! The crate does no input or output. Cryptography is left to the crates
//! that the pool shares with the chain; every function that calls one says
//! so, and says what it takes on trust.

pub mod aggregator;
pub mod bytes;
pub mod challenge;
pub mod confirm;
pub mod contributor;
pub mod error;
pub mod instruction;
pub mod member;
pub mod nonce;
pub mod program;
pub mod round;
pub mod submission;
pub mod validator;
