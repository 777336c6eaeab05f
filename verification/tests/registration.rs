use base64::Engine;
use ore_pool::aggregator::Aggregator;
use ore_pool::bytes::{read_array, u64_from_le, u64_to_le, write_bytes};
use ore_pool::challenge::Challenge;
use ore_pool::contributor::{
    challenge, member_id_from_bytes, parse_authority, register_return_data, ChallengeReply,
    HttpStatus, MemberChallenge, MemberLookup, Refusal, RegisterError, TransactionMeta,
};
use ore_pool::error::ProgramError;
use ore_pool::member::Member;
use ore_pool::nonce::{AllocationPolicy, NonceRange};
use std::str::FromStr;

fn meta(return_data: &str) -> TransactionMeta {
    TransactionMeta { return_data: Some(return_data.to_string()) }
}

#[test]
fn member_id_is_read_from_return_data() {
    // Eight bytes, little-endian: 42.
    assert_eq!(register_return_data(Some(&meta("KgAAAAAAAAA="))), Ok(42));
    for id in [0u64, 1, 255, 256, 0x0102_0304_0506_0708, u64::MAX] {
        let text = base64::prelude::BASE64_STANDARD.encode(id.to_le_bytes());
        assert_eq!(register_return_data(Some(&meta(&text))), Ok(id));
    }
}

#[test]
fn missing_return_data() {
    assert_eq!(register_return_data(None), Err(RegisterError::MissingReturnData));
    let empty = TransactionMeta { return_data: None };
    assert_eq!(register_return_data(Some(&empty)), Err(RegisterError::MissingReturnData));
}

#[test]
fn malformed_return_data() {
    assert_eq!(register_return_data(Some(&meta("not base64!"))), Err(RegisterError::InvalidEncoding));
    assert_eq!(register_return_data(Some(&meta("KgAAAAAAAAA"))), Err(RegisterError::InvalidEncoding));
    // Seven and nine bytes.
    assert_eq!(register_return_data(Some(&meta("KgAAAAAAAA=="))), Err(RegisterError::WrongLength));
    assert_eq!(register_return_data(Some(&meta("KgAAAAAAAAAA"))), Err(RegisterError::WrongLength));
    assert_eq!(register_return_data(Some(&meta(""))), Err(RegisterError::WrongLength));
}

#[test]
fn authority_is_read_from_base58() {
    assert_eq!(parse_authority("11111111111111111111111111111111"), Ok([0u8; 32]));
    let key = solana_sdk::pubkey::Pubkey::new_from_array([0xabu8; 32]);
    assert_eq!(parse_authority(&key.to_string()), Ok([0xabu8; 32]));
    let mut bytes = [0u8; 32];
    for (i, b) in bytes.iter_mut().enumerate() {
        *b = i as u8 * 7 + 1;
    }
    let key = solana_sdk::pubkey::Pubkey::new_from_array(bytes);
    assert_eq!(parse_authority(&key.to_string()), Ok(bytes));
}

fn bad_request(message: &str) -> Result<[u8; 32], Refusal> {
    Err(Refusal { status: HttpStatus::BadRequest, message: message.to_string() })
}

#[test]
fn a_bad_authority_is_a_bad_request() {
    assert_eq!(parse_authority("0"), bad_request("Invalid Base58 string"));
    assert_eq!(parse_authority("0OIl"), bad_request("Invalid Base58 string"));
    assert_eq!(parse_authority("abc"), bad_request("String is the wrong size"));
    assert_eq!(parse_authority(""), bad_request("String is the wrong size"));
    let long = "1".repeat(45);
    assert_eq!(parse_authority(&long), bad_request("String is the wrong size"));
    assert_eq!(parse_authority("0").unwrap_err().status.to_u16(), 400);
}

#[test]
fn challenge_is_answered_with_the_range() {
    let policy = AllocationPolicy::new(1000, 2).unwrap();
    let mut aggregator = Aggregator::new(policy, [8u8; 32], 14, 77);
    let live = Challenge { target: [8u8; 32], min_difficulty: 14, round_id: 0, started_at: 77 };
    let reply = challenge(&mut aggregator, MemberLookup::Found(5));
    let expected = ChallengeReply {
        status: HttpStatus::Success,
        body: Some(MemberChallenge {
            challenge: live,
            range: NonceRange { member_id: 5, start: 0, end: 500 },
        }),
    };
    assert_eq!(reply, expected);
    // Asking again gives the same.
    assert_eq!(challenge(&mut aggregator, MemberLookup::Found(5)), expected);
    assert_eq!(aggregator.range_of(5), Some(NonceRange { member_id: 5, start: 0, end: 500 }));
}

#[test]
fn challenge_errors_are_internal() {
    let policy = AllocationPolicy::new(1000, 1).unwrap();
    let mut aggregator = Aggregator::new(policy, [8u8; 32], 14, 77);
    let error = ChallengeReply { status: HttpStatus::InternalServerError, body: None };
    // An authority that the member store does not know, or cannot look up.
    assert_eq!(challenge(&mut aggregator, MemberLookup::Unknown), error);
    assert_eq!(challenge(&mut aggregator, MemberLookup::Failed), error);
    assert_eq!(challenge(&mut aggregator, MemberLookup::Found(1)).status, HttpStatus::Success);
    // No window left.
    assert_eq!(challenge(&mut aggregator, MemberLookup::Found(2)), error);
    assert_eq!(aggregator.range_of(2), None);
}

#[test]
fn a_new_member_has_earned_nothing() {
    let member = Member::new(42, [1u8; 32], [2u8; 32]);
    assert_eq!(
        member,
        Member { id: 42, pool: [1u8; 32], authority: [2u8; 32], balance: 0, total_balance: 0 }
    );
}

#[test]
fn rewards_are_credited_and_claimed() {
    let mut member = Member::new(1, [0u8; 32], [0u8; 32]);
    assert!(member.apply_reward_delta(700));
    assert!(member.apply_reward_delta(300));
    assert_eq!((member.balance, member.total_balance), (1000, 1000));
    assert_eq!(member.claim(400), Ok(()));
    assert_eq!((member.balance, member.total_balance), (600, 1000));
    assert_eq!(member.claim(601), Err(ProgramError::InsufficientFunds));
    assert_eq!((member.balance, member.total_balance), (600, 1000));
    assert_eq!(member.claim(600), Ok(()));
    assert_eq!((member.balance, member.total_balance), (0, 1000));
    assert_eq!(member.claim(0), Ok(()));
    assert_eq!(member.claim(1), Err(ProgramError::InsufficientFunds));
}

#[test]
fn a_reward_that_overflows_is_not_applied() {
    let mut member = Member::new(1, [0u8; 32], [0u8; 32]);
    assert!(member.apply_reward_delta(u64::MAX - 1));
    member.claim(u64::MAX - 1).unwrap();
    // The balance has room, the total has not.
    assert!(!member.apply_reward_delta(2));
    assert_eq!((member.balance, member.total_balance), (0, u64::MAX - 1));
    assert!(member.apply_reward_delta(1));
    assert_eq!((member.balance, member.total_balance), (1, u64::MAX));
    assert!(member.apply_reward_delta(0));
    assert!(!member.apply_reward_delta(1));
    let mut odd = Member { id: 2, pool: [0; 32], authority: [0; 32], balance: u64::MAX, total_balance: 0 };
    assert!(!odd.apply_reward_delta(1));
    assert_eq!((odd.balance, odd.total_balance), (u64::MAX, 0));
}

#[test]
fn little_endian_numbers() {
    assert_eq!(u64_from_le(&[1, 0, 0, 0, 0, 0, 0, 0]), 1);
    assert_eq!(u64_from_le(&[0, 1, 0, 0, 0, 0, 0, 0]), 256);
    assert_eq!(u64_from_le(&[0x08, 0x07, 0x06, 0x05, 0x04, 0x03, 0x02, 0x01]), 0x0102_0304_0506_0708);
    assert_eq!(u64_from_le(&[0xff; 8]), u64::MAX);
    assert_eq!(u64_to_le(0x0102_0304_0506_0708), [0x08, 0x07, 0x06, 0x05, 0x04, 0x03, 0x02, 0x01]);
    for value in [0u64, 1, 255, 256, 65_535, 1 << 32, u64::MAX - 1, u64::MAX] {
        assert_eq!(u64_to_le(value), value.to_le_bytes());
        assert_eq!(u64_from_le(&value.to_le_bytes()), value);
    }
}

#[test]
fn fields_are_read_and_written() {
    let data = [10u8, 11, 12, 13, 14, 15];
    assert_eq!(read_array::<2>(&data, 0), [10, 11]);
    assert_eq!(read_array::<3>(&data, 3), [13, 14, 15]);
    assert_eq!(read_array::<0>(&data, 6), [0u8; 0]);
    let mut out = vec![1u8];
    write_bytes(&mut out, &data[1..3]);
    write_bytes(&mut out, &[]);
    assert_eq!(out, vec![1, 11, 12]);
}

#[test]
fn challenges_follow_the_cursor() {
    let policy = AllocationPolicy::new(103, 5).unwrap();
    let mut aggregator = Aggregator::new(policy, [8u8; 32], 14, 77);
    aggregator.rotate_challenge([9u8; 32], 14, 90);
    aggregator.rotate_challenge([10u8; 32], 14, 99);
    for k in 0..5u64 {
        let reply = challenge(&mut aggregator, MemberLookup::Found(100 + k));
        assert_eq!(reply.status, HttpStatus::Success);
        let body = reply.body.unwrap();
        assert_eq!(body.challenge.round_id, 2);
        assert_eq!(body.range, NonceRange { member_id: 100 + k, start: k * 20, end: (k + 1) * 20 });
    }
}

#[test]
fn member_id_is_eight_little_endian_bytes() {
    assert_eq!(member_id_from_bytes(&[42, 0, 0, 0, 0, 0, 0, 0]), Ok(42));
    assert_eq!(member_id_from_bytes(&[0, 1, 0, 0, 0, 0, 0, 0]), Ok(256));
    assert_eq!(member_id_from_bytes(&[0xff; 8]), Ok(u64::MAX));
    assert_eq!(member_id_from_bytes(&[]), Err(RegisterError::WrongLength));
    assert_eq!(member_id_from_bytes(&[1; 7]), Err(RegisterError::WrongLength));
    assert_eq!(member_id_from_bytes(&[1; 9]), Err(RegisterError::WrongLength));
}

#[test]
fn the_refusal_carries_the_text_of_the_parse_error() {
    for text in ["0", "", "abc", "not a key at all", "l1111111111111111111111111111111"] {
        let expected = solana_sdk::pubkey::Pubkey::from_str(text).unwrap_err().to_string();
        let refusal = parse_authority(text).unwrap_err();
        assert_eq!(refusal.status, HttpStatus::BadRequest);
        assert_eq!(refusal.message, expected);
        assert!(!refusal.message.is_empty());
    }
}
