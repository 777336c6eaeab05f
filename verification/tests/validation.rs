use ore_pool::challenge::Challenge;
use ore_pool::aggregator::Aggregator;
use ore_pool::contributor::{contribute, settle, ContributeReply, HttpStatus, MemberLookup};
use ore_pool::nonce::AllocationPolicy;
use ore_pool::error::PoolError;
use ore_pool::nonce::NonceRange;
use ore_pool::round::Contribution;
use ore_pool::validator::{assess, difficulty, score, validate, SignedPayload, Solution};
use solana_sdk::signer::keypair::{keypair_from_seed, Keypair};
use solana_sdk::signer::Signer;

fn challenge(min_difficulty: u64) -> Challenge {
    Challenge { target: [3u8; 32], min_difficulty, round_id: 4, started_at: 1_700_000_000 }
}

fn range(start: u64, end: u64) -> Option<NonceRange> {
    Some(NonceRange { member_id: 1, start, end })
}

fn keypair() -> Keypair {
    keypair_from_seed(&[7u8; 32]).expect("a seed of 32 bytes")
}

fn sign(keypair: &Keypair, solution: Solution) -> SignedPayload {
    let signature = keypair.sign_message(&solution.to_bytes());
    SignedPayload {
        authority: keypair.pubkey().to_bytes(),
        solution,
        signature: signature.into(),
    }
}

/// Searches the nonces from `from` on for one that has a solution.
fn mine(target: &[u8; 32], from: u64) -> (drillx::Hash, u64) {
    let mut nonce = from;
    loop {
        if let Ok(hash) = drillx::hash(target, &nonce.to_le_bytes()) {
            return (hash, nonce);
        }
        nonce += 1;
    }
}

#[test]
fn score_is_two_to_the_difficulty() {
    assert_eq!(score(0), Some(1));
    assert_eq!(score(1), Some(2));
    assert_eq!(score(12), Some(4096));
    assert_eq!(score(32), Some(1 << 32));
    assert_eq!(score(63), Some(1 << 63));
}

#[test]
fn score_beyond_64_bits_has_no_value() {
    assert_eq!(score(64), None);
    assert_eq!(score(65), None);
    assert_eq!(score(256), None);
    assert_eq!(score(u32::MAX), None);
}

#[test]
fn score_grows_with_difficulty() {
    for d in 0..63u32 {
        assert!(score(d).unwrap() < score(d + 1).unwrap());
        assert_eq!(score(d + 1).unwrap(), 2 * score(d).unwrap());
    }
}

#[test]
fn difficulty_counts_leading_zero_bits() {
    let mut hash = [0xffu8; 32];
    assert_eq!(difficulty(&hash), 0);
    hash[0] = 0x7f;
    assert_eq!(difficulty(&hash), 1);
    hash[0] = 0x01;
    assert_eq!(difficulty(&hash), 7);
    hash[0] = 0x00;
    assert_eq!(difficulty(&hash), 8);
    hash[1] = 0x0f;
    assert_eq!(difficulty(&hash), 12);
    hash[1] = 0x00;
    hash[2] = 0x20;
    assert_eq!(difficulty(&hash), 18);
    assert_eq!(difficulty(&[0u8; 32]), 256);
    let mut last = [0u8; 32];
    last[31] = 1;
    assert_eq!(difficulty(&last), 255);
}

#[test]
fn difficulty_agrees_with_the_proof_of_work_scheme() {
    let mut hash = [0u8; 32];
    for i in 0..32 {
        for byte in [1u8, 2, 3, 4, 9, 17, 33, 64, 127, 128, 255] {
            hash[i] = byte;
            hash[31] = 0x5a;
            assert_eq!(difficulty(&hash), drillx::difficulty(hash));
        }
        hash[i] = 0;
    }
}

#[test]
fn checks_fail_in_their_order() {
    let c = challenge(10);
    // The signature is judged first.
    assert_eq!(assess(&c, None, 0, false, 0, false), Err(PoolError::Unauthorized));
    assert_eq!(assess(&c, range(0, 10), 5, false, 12, true), Err(PoolError::Unauthorized));
    // Then the difficulty.
    assert_eq!(assess(&c, None, 0, true, 9, false), Err(PoolError::BelowMinDifficulty));
    // Then the digest.
    assert_eq!(assess(&c, None, 0, true, 10, false), Err(PoolError::InvalidDigest));
    // Then the range.
    assert_eq!(assess(&c, None, 0, true, 10, true), Err(PoolError::NonceOutOfRange));
    assert_eq!(assess(&c, range(0, 10), 10, true, 10, true), Err(PoolError::NonceOutOfRange));
    assert_eq!(assess(&c, range(1, 10), 0, true, 10, true), Err(PoolError::NonceOutOfRange));
    // Then the score.
    assert_eq!(assess(&c, range(0, 10), 9, true, 64, true), Err(PoolError::ScoreOverflow));
    assert_eq!(assess(&c, range(0, 10), 9, true, 10, true), Ok(1024));
    assert_eq!(assess(&c, range(0, 10), 0, true, 12, true), Ok(4096));
}

#[test]
fn minimum_difficulty_is_inclusive() {
    assert_eq!(assess(&challenge(12), range(0, 1), 0, true, 12, true), Ok(4096));
    assert_eq!(
        assess(&challenge(13), range(0, 1), 0, true, 12, true),
        Err(PoolError::BelowMinDifficulty)
    );
    assert_eq!(
        assess(&challenge(u64::MAX), range(0, 1), 0, true, u32::MAX, true),
        Err(PoolError::BelowMinDifficulty)
    );
    assert_eq!(assess(&challenge(0), range(0, 1), 0, true, 0, true), Ok(1));
}

#[test]
fn solution_bytes_are_digest_then_nonce() {
    let solution = Solution::new([0xd1; 16], [1, 2, 3, 4, 5, 6, 7, 8]);
    let mut expected = vec![0xd1u8; 16];
    expected.extend_from_slice(&[1, 2, 3, 4, 5, 6, 7, 8]);
    assert_eq!(solution.to_bytes(), expected);
    assert_eq!(solution.to_bytes(), drillx::Solution::new(solution.d, solution.n).to_bytes().to_vec());
}

#[test]
fn a_mined_and_signed_solution_is_accepted() {
    let c = challenge(0);
    let (hash, nonce) = mine(&c.target, 1000);
    let payload = sign(&keypair(), Solution::new(hash.d, nonce.to_le_bytes()));
    let outcome = validate(&c, range(1000, nonce + 1), &payload);
    assert!(hash.difficulty() < 64);
    assert_eq!(outcome, Ok(1u64 << hash.difficulty()));
}

#[test]
fn a_bad_signature_is_unauthorized() {
    let c = challenge(0);
    let (hash, nonce) = mine(&c.target, 0);
    let good = sign(&keypair(), Solution::new(hash.d, nonce.to_le_bytes()));

    let mut flipped = good;
    flipped.signature[10] ^= 1;
    assert_eq!(validate(&c, range(0, u64::MAX), &flipped), Err(PoolError::Unauthorized));

    // A signature by another key.
    let other = keypair_from_seed(&[8u8; 32]).unwrap();
    let mut forged = sign(&other, good.solution);
    forged.authority = good.authority;
    assert_eq!(validate(&c, range(0, u64::MAX), &forged), Err(PoolError::Unauthorized));

    // A signature over other bytes.
    let mut moved = good;
    moved.solution.n[7] ^= 0x80;
    assert_eq!(validate(&c, range(0, u64::MAX), &moved), Err(PoolError::Unauthorized));

    assert!(validate(&c, range(0, u64::MAX), &good).is_ok());
}

#[test]
fn a_solution_below_the_minimum_is_rejected() {
    let c = challenge(200);
    let (hash, nonce) = mine(&c.target, 0);
    let payload = sign(&keypair(), Solution::new(hash.d, nonce.to_le_bytes()));
    assert!(hash.difficulty() < 200);
    assert_eq!(validate(&c, range(0, u64::MAX), &payload), Err(PoolError::BelowMinDifficulty));
}

#[test]
fn a_digest_for_another_target_is_invalid() {
    let c = challenge(0);
    let (hash, nonce) = mine(&[9u8; 32], 0);
    assert!(!drillx::is_valid_digest(&c.target, &nonce.to_le_bytes(), &hash.d));
    let payload = sign(&keypair(), Solution::new(hash.d, nonce.to_le_bytes()));
    assert_eq!(validate(&c, range(0, u64::MAX), &payload), Err(PoolError::InvalidDigest));
}

#[test]
fn a_nonce_outside_the_range_is_rejected() {
    let c = challenge(0);
    let (hash, nonce) = mine(&c.target, 500);
    let payload = sign(&keypair(), Solution::new(hash.d, nonce.to_le_bytes()));
    assert_eq!(validate(&c, range(0, 500), &payload), Err(PoolError::NonceOutOfRange));
    assert_eq!(validate(&c, range(nonce + 1, u64::MAX), &payload), Err(PoolError::NonceOutOfRange));
    assert_eq!(validate(&c, None, &payload), Err(PoolError::NonceOutOfRange));
    assert!(validate(&c, range(nonce, nonce + 1), &payload).is_ok());
}

#[test]
fn contribute_answers_with_the_contribution() {
    let c = challenge(0);
    let (hash, nonce) = mine(&c.target, 0);
    let payload = sign(&keypair(), Solution::new(hash.d, nonce.to_le_bytes()));
    let reply = contribute(&c, range(0, u64::MAX), MemberLookup::Found(17), &payload, 1_700_000_123);
    assert_eq!(
        reply,
        ContributeReply {
            status: HttpStatus::Success,
            contribution: Some(Contribution {
                member_id: 17,
                round_id: 4,
                solution: payload.solution,
                score: 1u64 << hash.difficulty(),
                received_at: 1_700_000_123,
            }),
        }
    );
}

#[test]
fn contribute_answers_rejections_with_a_status() {
    let c = challenge(0);
    let (hash, nonce) = mine(&c.target, 0);
    let good = sign(&keypair(), Solution::new(hash.d, nonce.to_le_bytes()));

    let mut unsigned = good;
    unsigned.signature = [0u8; 64];
    let reply = contribute(&c, range(0, u64::MAX), MemberLookup::Found(17), &unsigned, 0);
    assert_eq!(reply, ContributeReply { status: HttpStatus::Unauthorized, contribution: None });

    let reply = contribute(&c, None, MemberLookup::Found(17), &good, 0);
    assert_eq!(reply, ContributeReply { status: HttpStatus::BadRequest, contribution: None });

    let reply = contribute(&challenge(255), range(0, u64::MAX), MemberLookup::Found(17), &good, 0);
    assert_eq!(reply, ContributeReply { status: HttpStatus::BadRequest, contribution: None });
}

#[test]
fn status_codes() {
    assert_eq!(HttpStatus::Success.to_u16(), 200);
    assert_eq!(HttpStatus::BadRequest.to_u16(), 400);
    assert_eq!(HttpStatus::Unauthorized.to_u16(), 401);
    assert_eq!(HttpStatus::InternalServerError.to_u16(), 500);
}

#[test]
fn a_solution_from_no_member_is_turned_down() {
    let c = challenge(0);
    let (hash, nonce) = mine(&c.target, 0);
    let good = sign(&keypair(), Solution::new(hash.d, nonce.to_le_bytes()));
    let reply = contribute(&c, range(0, u64::MAX), MemberLookup::Unknown, &good, 0);
    assert_eq!(reply, ContributeReply { status: HttpStatus::BadRequest, contribution: None });
    let reply = contribute(&c, range(0, u64::MAX), MemberLookup::Failed, &good, 0);
    assert_eq!(reply, ContributeReply { status: HttpStatus::InternalServerError, contribution: None });
}

#[test]
fn settling_records_or_turns_down() {
    let policy = AllocationPolicy::new(1000, 4).unwrap();
    let mut aggregator = Aggregator::new(policy, [3u8; 32], 0, 0);
    let contribution = Contribution {
        member_id: 1,
        round_id: 0,
        solution: Solution::new([1u8; 16], [0u8; 8]),
        score: 8,
        received_at: 5,
    };
    assert_eq!(settle(&mut aggregator, contribution), HttpStatus::Success);
    assert_eq!(aggregator.round().contributions(), &vec![contribution]);
    // After a rotation the same contribution is stale.
    aggregator.rotate_challenge([4u8; 32], 0, 9);
    assert_eq!(settle(&mut aggregator, contribution), HttpStatus::BadRequest);
    assert!(aggregator.round().contributions().is_empty());
}
