//! Validation and scoring of submitted solutions.
//!
//! Validation is stateless: it reads a snapshot of the challenge and the
//! range allocated to the member, so it can run outside the lock that guards
//! the live round.

use vstd::prelude::*;
use vstd::arithmetic::power2::*;
use crate::bytes::{le_value, u64_from_le, write_bytes};
use crate::challenge::Challenge;
use crate::error::PoolError;
use crate::nonce::NonceRange;

verus! {

/// A candidate proof of work: a 16-byte digest and the 8-byte nonce it was
/// found with.
#[derive(Clone, Copy, Debug, PartialEq, Eq)]
pub struct Solution {
    /// The digest.
    pub d: [u8; 16],
    /// The nonce, little-endian.
    pub n: [u8; 8],
}

impl Solution {
    /// The canonical encoding: the digest followed by the nonce.
    pub open spec fn bytes(self) -> Seq<u8> {
        self.d@ + self.n@
    }

    /// The nonce as a number.
    pub open spec fn nonce(self) -> nat {
        le_value(self.n@)
    }

    /// Builds a solution from a digest and a nonce.
    pub fn new(digest: [u8; 16], nonce: [u8; 8]) -> (solution: Solution)
        ensures
            solution.d == digest,
            solution.n == nonce,
    {
        Solution { d: digest, n: nonce }
    }

    /// Writes the canonical encoding, the bytes that a member signs.
    pub fn to_bytes(&self) -> (bytes: Vec<u8>)
        ensures
            bytes@ == self.bytes(),
    {
        let mut bytes: Vec<u8> = Vec::new();
        write_bytes(&mut bytes, &self.d);
        write_bytes(&mut bytes, &self.n);
        bytes
    }
}

/// What a member posts: a solution, signed by the member's authority.
#[derive(Clone, Copy, Debug, PartialEq, Eq)]
pub struct SignedPayload {
    /// The public key of the member's authority.
    pub authority: [u8; 32],
    /// The solution.
    pub solution: Solution,
    /// The authority's signature over the solution's canonical encoding.
    pub signature: [u8; 64],
}

/// Whether `signature` is a valid Ed25519 signature by the key `authority`
/// over `message`.
pub uninterp spec fn signature_accepts(signature: Seq<u8>, authority: Seq<u8>, message: Seq<u8>) -> bool;

/// Whether `digest` is a valid Equi-X proof of work for the seed made of
/// `target` followed by `nonce`.
pub uninterp spec fn digest_accepts(target: Seq<u8>, nonce: Seq<u8>, digest: Seq<u8>) -> bool;

/// `solana_sdk::signature::Signature::verify`: strict Ed25519 verification
/// of `signature` against the public key bytes `authority` over `message`.
/// The answer depends on the three byte strings alone; a key or signature
/// that does not parse is answered with `false`.
#[verifier::external_body]
fn verify_signature(signature: &[u8; 64], authority: &[u8; 32], message: &[u8]) -> (ok: bool)
    ensures
        ok == signature_accepts(signature@, authority@, message@),
{
    solana_sdk::signature::Signature::from(*signature).verify(authority, message)
}

/// `drillx::is_valid_digest`: checks `digest` as an Equi-X solution for the
/// 40-byte seed `target ++ nonce`. The answer depends on the three byte
/// strings alone.
#[verifier::external_body]
fn verify_digest(target: &[u8; 32], nonce: &[u8; 8], digest: &[u8; 16]) -> (ok: bool)
    ensures
        ok == digest_accepts(target@, nonce@, digest@),
{
    drillx::is_valid_digest(target, nonce, digest)
}

/// The hash of the solution made of `digest` and `nonce`, as a machine of
/// the given byte order computes it: the Keccak-256 hash of the digest,
/// sorted as eight 16-bit words in that byte order, followed by the nonce.
pub uninterp spec fn solution_hash(digest: Seq<u8>, nonce: Seq<u8>, little_endian: bool) -> Seq<u8>;

/// `drillx::Solution::to_hash`: the 32-byte hash of a solution. The digest
/// is sorted as eight 16-bit words in the byte order of the machine before
/// it is hashed, so the hash depends on the digest, the nonce and that byte
/// order, and on nothing else. Which byte order the machine has is not
/// claimed.
#[verifier::external_body]
fn hash_solution(solution: &Solution) -> (hash: [u8; 32])
    ensures
        exists|little_endian: bool|
            hash@ == #[trigger] solution_hash(solution.d@, solution.n@, little_endian),
{
    drillx::Solution::new(solution.d, solution.n).to_hash().h
}

/// The number of zero bits that lead one byte.
pub open spec fn byte_leading_zeros(byte: u8) -> nat {
    if byte >= 128 {
        0
    } else if byte >= 64 {
        1
    } else if byte >= 32 {
        2
    } else if byte >= 16 {
        3
    } else if byte >= 8 {
        4
    } else if byte >= 4 {
        5
    } else if byte >= 2 {
        6
    } else if byte >= 1 {
        7
    } else {
        8
    }
}

/// The number of zero bits that lead a byte string, the first byte being
/// the most significant.
pub open spec fn leading_zero_bits(bytes: Seq<u8>) -> nat
    decreases bytes.len(),
{
    if bytes.len() == 0 {
        0
    } else if bytes[0] == 0 {
        8 + leading_zero_bits(bytes.drop_first())
    } else {
        byte_leading_zeros(bytes[0])
    }
}

/// A byte string has at most eight leading zero bits per byte.
pub proof fn lemma_leading_zero_bits_bound(bytes: Seq<u8>)
    ensures
        leading_zero_bits(bytes) <= 8 * bytes.len(),
    decreases bytes.len(),
{
    if bytes.len() > 0 {
        lemma_leading_zero_bits_bound(bytes.drop_first());
    }
}

/// Zero bytes in front each add eight to the count of what follows them.
proof fn lemma_leading_zero_bits_skip(bytes: Seq<u8>, zeros: int)
    requires
        0 <= zeros <= bytes.len(),
        forall|k: int| 0 <= k < zeros ==> bytes[k] == 0,
    ensures
        leading_zero_bits(bytes) == 8 * zeros + leading_zero_bits(bytes.skip(zeros)),
    decreases zeros,
{
    if zeros == 0 {
        assert(bytes.skip(0) =~= bytes);
    } else {
        lemma_leading_zero_bits_skip(bytes.drop_first(), zeros - 1);
        assert(bytes.drop_first().skip(zeros - 1) =~= bytes.skip(zeros));
    }
}

/// The difficulty of a hash: the number of its leading zero bits.
pub fn difficulty(hash: &[u8; 32]) -> (bits: u32)
    ensures
        bits == leading_zero_bits(hash@),
        bits <= 256,
{
    let mut i: usize = 0;
    while i < 32 && hash[i] == 0
        invariant
            i <= 32,
            forall|k: int| 0 <= k < i ==> hash@[k] == 0,
        decreases 32 - i,
    {
        i = i + 1;
    }
    proof {
        lemma_leading_zero_bits_skip(hash@, i as int);
        lemma_leading_zero_bits_bound(hash@);
        if i < 32 {
            assert(hash@.skip(i as int)[0] == hash@[i as int]);
        }
    }
    if i == 32 {
        256
    } else {
        let byte: u8 = hash[i];
        let partial: u32 = if byte >= 128 {
            0
        } else if byte >= 64 {
            1
        } else if byte >= 32 {
            2
        } else if byte >= 16 {
            3
        } else if byte >= 8 {
            4
        } else if byte >= 4 {
            5
        } else if byte >= 2 {
            6
        } else {
            7
        };
        8 * (i as u32) + partial
    }
}

/// The score of a solution: two to the power of its difficulty.
pub open spec fn score_of(difficulty: nat) -> nat {
    pow2(difficulty)
}

/// A higher difficulty always scores strictly higher.
pub proof fn lemma_score_strictly_increasing(d1: nat, d2: nat)
    requires
        d1 < d2,
    ensures
        score_of(d1) < score_of(d2),
{
    lemma_pow2_strictly_increases(d1, d2);
}

/// Exactly the difficulties below 64 have a score that fits 64 bits.
pub proof fn lemma_score_fits(difficulty: nat)
    ensures
        difficulty < 64 <==> score_of(difficulty) <= u64::MAX,
{
    lemma2_to64_rest();
    if difficulty < 64 {
        lemma_pow2_strictly_increases(difficulty, 64);
    } else if difficulty > 64 {
        lemma_pow2_strictly_increases(64, difficulty);
    }
}

/// Computes the score `2^difficulty`; `None` when it does not fit 64 bits.
pub fn score(difficulty: u32) -> (points: Option<u64>)
    ensures
        difficulty < 64 ==> points == Some(score_of(difficulty as nat) as u64),
        difficulty >= 64 ==> points is None,
        points matches Some(p) ==> p == score_of(difficulty as nat),
{
    if difficulty < 64 {
        proof {
            lemma_score_fits(difficulty as nat);
            vstd::bits::lemma_u64_shl_is_mul(1, difficulty as u64);
        }
        Some(1u64 << (difficulty as u64))
    } else {
        None
    }
}

/// The validator's decision, given what the cryptographic checks found.
///
/// The checks are made in a fixed order, and the first that fails names the
/// rejection: the signature, the difficulty against the challenge's minimum,
/// the digest, and the nonce against the range allocated to the member (a
/// member without a range has no nonce in range). A solution that passes
/// them all scores `2^difficulty`.
pub open spec fn verdict(
    challenge: Challenge,
    range: Option<NonceRange>,
    nonce: u64,
    authentic: bool,
    difficulty: nat,
    digest_valid: bool,
) -> Result<u64, PoolError> {
    if !authentic {
        Err(PoolError::Unauthorized)
    } else if difficulty < challenge.min_difficulty {
        Err(PoolError::BelowMinDifficulty)
    } else if !digest_valid {
        Err(PoolError::InvalidDigest)
    } else if !(range matches Some(r) && r.contains(nonce)) {
        Err(PoolError::NonceOutOfRange)
    } else if difficulty >= 64 {
        Err(PoolError::ScoreOverflow)
    } else {
        Ok(score_of(difficulty) as u64)
    }
}

/// Decides on a solution whose signature, difficulty and digest have been
/// checked already.
pub fn assess(
    challenge: &Challenge,
    range: Option<NonceRange>,
    nonce: u64,
    authentic: bool,
    difficulty: u32,
    digest_valid: bool,
) -> (outcome: Result<u64, PoolError>)
    ensures
        outcome == verdict(*challenge, range, nonce, authentic, difficulty as nat, digest_valid),
{
    if !authentic {
        return Err(PoolError::Unauthorized);
    }
    if (difficulty as u64) < challenge.min_difficulty {
        return Err(PoolError::BelowMinDifficulty);
    }
    if !digest_valid {
        return Err(PoolError::InvalidDigest);
    }
    let in_range = match range {
        Some(r) => r.holds(nonce),
        None => false,
    };
    if !in_range {
        return Err(PoolError::NonceOutOfRange);
    }
    match score(difficulty) {
        Some(points) => Ok(points),
        None => Err(PoolError::ScoreOverflow),
    }
}

/// What validation answers for `payload` if the solution's hash is `hash`.
pub open spec fn validation(
    challenge: Challenge,
    range: Option<NonceRange>,
    payload: SignedPayload,
    hash: Seq<u8>,
) -> Result<u64, PoolError> {
    verdict(
        challenge,
        range,
        payload.solution.nonce() as u64,
        signature_accepts(payload.signature@, payload.authority@, payload.solution.bytes()),
        leading_zero_bits(hash),
        digest_accepts(challenge.target@, payload.solution.n@, payload.solution.d@),
    )
}

/// Validates a signed solution against a snapshot of the challenge and the
/// range allocated to the member for the round, and scores it.
///
/// The signature is checked over the solution's canonical encoding, the
/// difficulty is that of the solution's hash, and the digest is checked
/// against the challenge's target. The answer is the one `validation` gives
/// for the solution's hash, as the machine's byte order makes it.
pub fn validate(challenge: &Challenge, range: Option<NonceRange>, payload: &SignedPayload) -> (outcome:
    Result<u64, PoolError>)
    ensures
        exists|little_endian: bool|
            outcome == validation(
                *challenge,
                range,
                *payload,
                #[trigger] solution_hash(payload.solution.d@, payload.solution.n@, little_endian),
            ),
{
    let message = payload.solution.to_bytes();
    if !verify_signature(&payload.signature, &payload.authority, message.as_slice()) {
        let outcome = Err(PoolError::Unauthorized);
        assert(outcome == validation(
            *challenge,
            range,
            *payload,
            solution_hash(payload.solution.d@, payload.solution.n@, true),
        ));
        return outcome;
    }
    let hash = hash_solution(&payload.solution);
    let bits = difficulty(&hash);
    if (bits as u64) < challenge.min_difficulty {
        return Err(PoolError::BelowMinDifficulty);
    }
    let digest_valid = verify_digest(&challenge.target, &payload.solution.n, &payload.solution.d);
    let nonce = u64_from_le(&payload.solution.n);
    assess(challenge, range, nonce, true, bits, digest_valid)
}

} // verus!
