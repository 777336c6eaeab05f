//! What the coordinator answers to its members: the decisions behind the
//! endpoints for fetching a challenge and for contributing a solution, and
//! the reading of a member's id from the return data of its registration.

use base64::Engine;
use std::str::FromStr;
use vstd::prelude::*;
use crate::aggregator::{Aggregator, AggregatorView, Receipt};
use crate::bytes::{le_value, read_array, u64_from_le};
use crate::challenge::Challenge;
use crate::error::PoolError;
use crate::nonce::NonceRange;
use crate::round::Contribution;
use crate::validator::{solution_hash, validate, validation, SignedPayload};

verus! {

/// The status of an answer.
#[derive(Clone, Copy, Debug, PartialEq, Eq, Structural)]
pub enum HttpStatus {
    Success,
    BadRequest,
    Unauthorized,
    InternalServerError,
}

impl HttpStatus {
    /// The status code.
    pub open spec fn code(self) -> u16 {
        match self {
            HttpStatus::Success => 200,
            HttpStatus::BadRequest => 400,
            HttpStatus::Unauthorized => 401,
            HttpStatus::InternalServerError => 500,
        }
    }

    /// The status code as a number.
    pub fn to_u16(&self) -> (code: u16)
        ensures
            code == self.code(),
    {
        match self {
            HttpStatus::Success => 200,
            HttpStatus::BadRequest => 400,
            HttpStatus::Unauthorized => 401,
            HttpStatus::InternalServerError => 500,
        }
    }
}

/// What reading a public key from `text` gives: the 32 bytes that the text
/// stands for in base58, or else the message of the parse error.
pub uninterp spec fn pubkey_from_text(text: Seq<char>) -> Result<Seq<u8>, Seq<char>>;

/// The bytes that a text in standard base64, with padding, stands for;
/// `None` when the text is not well formed.
pub uninterp spec fn base64_standard(text: Seq<char>) -> Option<Seq<u8>>;

/// `base64::DecodeError`, the error of decoding base64. Nothing is known of
/// what a value of it holds.
#[verifier::external_type_specification]
#[verifier::external_body]
pub struct ExDecodeError(base64::DecodeError);

/// `<solana_sdk::pubkey::Pubkey as FromStr>::from_str`: decodes a public key
/// from base58 text. A failure is handed on as the text that the parse
/// error displays. Whether it succeeds, the 32 bytes it gives and the
/// message it fails with depend on the text alone.
#[verifier::external_body]
fn pubkey_from_str(text: &str) -> (key: Result<[u8; 32], String>)
    ensures
        match key {
            Ok(bytes) => pubkey_from_text(text@) == Ok::<Seq<u8>, Seq<char>>(bytes@),
            Err(message) => pubkey_from_text(text@) == Err::<Seq<u8>, Seq<char>>(message@),
        },
{
    match solana_sdk::pubkey::Pubkey::from_str(text) {
        Ok(key) => Ok(key.to_bytes()),
        Err(error) => Err(error.to_string()),
    }
}

/// `base64::Engine::decode` on `base64::prelude::BASE64_STANDARD`: decodes
/// standard base64 text. Whether it succeeds, and the bytes it gives, depend
/// on the text alone.
#[verifier::external_body]
fn base64_decode(text: &str) -> (bytes: Result<Vec<u8>, base64::DecodeError>)
    ensures
        match bytes {
            Ok(decoded) => base64_standard(text@) == Some(decoded@),
            Err(_) => base64_standard(text@) is None,
        },
{
    base64::prelude::BASE64_STANDARD.decode(text)
}

/// The answer to a request that is turned down before it reaches the
/// aggregator.
#[derive(Debug, PartialEq, Eq)]
pub struct Refusal {
    pub status: HttpStatus,
    /// The text that goes into the body of the answer.
    pub message: String,
}

/// What `parse_authority` answers a text that is no public key with: a bad
/// request whose body is the message of the parse error.
pub open spec fn authority_refusal(refusal: Refusal, text: Seq<char>) -> bool {
    &&& refusal.status == HttpStatus::BadRequest
    &&& pubkey_from_text(text) == Err::<Seq<u8>, Seq<char>>(refusal.message@)
}

/// Reads a member's authority from the text it is written as.
///
/// A text that is no public key is answered with a bad request, whose body
/// is the message of the parse error; the aggregator has no part in it.
pub fn parse_authority(text: &str) -> (authority: Result<[u8; 32], Refusal>)
    ensures
        match authority {
            Ok(key) => pubkey_from_text(text@) == Ok::<Seq<u8>, Seq<char>>(key@),
            Err(refusal) => authority_refusal(refusal, text@),
        },
{
    match pubkey_from_str(text) {
        Ok(key) => Ok(key),
        Err(message) => Err(Refusal { status: HttpStatus::BadRequest, message }),
    }
}

/// What the member store says of the authority that makes a request.
#[derive(Clone, Copy, Debug, PartialEq, Eq, Structural)]
pub enum MemberLookup {
    /// The authority belongs to the member with this id.
    Found(u64),
    /// The store holds no member for the authority.
    Unknown,
    /// The store could not be asked.
    Failed,
}

/// What a member needs to start mining: the live challenge and its range.
#[derive(Clone, Copy, Debug, PartialEq, Eq)]
pub struct MemberChallenge {
    pub challenge: Challenge,
    pub range: NonceRange,
}

/// The answer to a request for the challenge.
#[derive(Clone, Copy, Debug, PartialEq, Eq)]
pub struct ChallengeReply {
    pub status: HttpStatus,
    pub body: Option<MemberChallenge>,
}

/// The effect of `challenge`: the new state and the answer.
///
/// A registered member is allocated its range and gets it with the live
/// challenge. An authority that is not registered, a store that could not
/// be asked, and a round that has no window left are answered with an
/// internal error, and change nothing.
pub open spec fn challenge_reply(state: AggregatorView, member: MemberLookup) -> (
    AggregatorView,
    ChallengeReply,
) {
    match member {
        MemberLookup::Found(member_id) => match state.allocate(member_id).1 {
            Ok(range) => (
                state.allocate(member_id).0,
                ChallengeReply {
                    status: HttpStatus::Success,
                    body: Some(MemberChallenge { challenge: state.round.challenge, range }),
                },
            ),
            Err(_) => (
                state,
                ChallengeReply { status: HttpStatus::InternalServerError, body: None },
            ),
        },
        _ => (state, ChallengeReply { status: HttpStatus::InternalServerError, body: None }),
    }
}

/// Answers a member's request for the challenge. `member` is what the
/// member store says of the authority that asks.
pub fn challenge(aggregator: &mut Aggregator, member: MemberLookup) -> (reply: ChallengeReply)
    requires
        old(aggregator).wf(),
    ensures
        final(aggregator).wf(),
        (final(aggregator)@, reply) == challenge_reply(old(aggregator)@, member),
{
    let member_id = match member {
        MemberLookup::Found(member_id) => member_id,
        _ => {
            return ChallengeReply { status: HttpStatus::InternalServerError, body: None };
        },
    };
    let challenge = aggregator.snapshot_for_validation();
    match aggregator.allocate_range(member_id) {
        Ok(range) => ChallengeReply {
            status: HttpStatus::Success,
            body: Some(MemberChallenge { challenge, range }),
        },
        Err(_) => ChallengeReply { status: HttpStatus::InternalServerError, body: None },
    }
}

/// The answer to a contributed solution.
#[derive(Clone, Copy, Debug, PartialEq, Eq)]
pub struct ContributeReply {
    pub status: HttpStatus,
    /// The contribution to record, when the solution was accepted.
    pub contribution: Option<Contribution>,
}

/// The answer that goes with an outcome of validation.
///
/// An accepted solution is answered with `Success` and becomes a
/// contribution to the challenge's round, with the score it was given. A
/// signature that does not verify is answered with `Unauthorized`, every
/// other rejection with `BadRequest`.
pub open spec fn contribute_reply(
    outcome: Result<u64, PoolError>,
    challenge: Challenge,
    member_id: u64,
    payload: SignedPayload,
    received_at: u64,
) -> ContributeReply {
    match outcome {
        Ok(score) => ContributeReply {
            status: HttpStatus::Success,
            contribution: Some(
                Contribution {
                    member_id,
                    round_id: challenge.round_id,
                    solution: payload.solution,
                    score,
                    received_at,
                },
            ),
        },
        Err(PoolError::Unauthorized) => ContributeReply {
            status: HttpStatus::Unauthorized,
            contribution: None,
        },
        Err(_) => ContributeReply { status: HttpStatus::BadRequest, contribution: None },
    }
}

/// The answer to a solution from an authority that is no member, which is
/// a bad request, or that the member store could not be asked about, which
/// is an internal error. `None` for a member, whose solution is to be
/// validated.
pub open spec fn stranger_reply(member: MemberLookup) -> Option<ContributeReply> {
    match member {
        MemberLookup::Found(_) => None,
        MemberLookup::Unknown => Some(
            ContributeReply { status: HttpStatus::BadRequest, contribution: None },
        ),
        MemberLookup::Failed => Some(
            ContributeReply { status: HttpStatus::InternalServerError, contribution: None },
        ),
    }
}

/// Accepts a solution from a pool member: validates it against a snapshot of
/// the challenge and the member's range, and answers with the contribution
/// to record if it is valid. `member` is what the member store says of the
/// authority that signed; a solution from anyone but a member is turned down
/// without being looked at.
pub fn contribute(
    challenge: &Challenge,
    range: Option<NonceRange>,
    member: MemberLookup,
    payload: &SignedPayload,
    received_at: u64,
) -> (reply: ContributeReply)
    ensures
        !(member is Found) ==> Some(reply) == stranger_reply(member),
        member matches MemberLookup::Found(member_id) ==> exists|little_endian: bool|
            reply == contribute_reply(
                validation(
                    *challenge,
                    range,
                    *payload,
                    #[trigger] solution_hash(
                        payload.solution.d@,
                        payload.solution.n@,
                        little_endian,
                    ),
                ),
                *challenge,
                member_id,
                *payload,
                received_at,
            ),
{
    let member_id = match member {
        MemberLookup::Found(member_id) => member_id,
        MemberLookup::Unknown => {
            return ContributeReply { status: HttpStatus::BadRequest, contribution: None };
        },
        MemberLookup::Failed => {
            return ContributeReply { status: HttpStatus::InternalServerError, contribution: None };
        },
    };
    match validate(challenge, range, payload) {
        Ok(score) => ContributeReply {
            status: HttpStatus::Success,
            contribution: Some(
                Contribution {
                    member_id,
                    round_id: challenge.round_id,
                    solution: payload.solution,
                    score,
                    received_at,
                },
            ),
        },
        Err(PoolError::Unauthorized) => ContributeReply {
            status: HttpStatus::Unauthorized,
            contribution: None,
        },
        Err(_) => ContributeReply { status: HttpStatus::BadRequest, contribution: None },
    }
}

/// The status that answers a contribution once the aggregator has been
/// asked to record it: `Success` when it was recorded, `BadRequest` when it
/// was turned down, as one made against a round that is no longer live is.
pub open spec fn recorded_status(recorded: Result<Receipt, PoolError>) -> HttpStatus {
    match recorded {
        Ok(_) => HttpStatus::Success,
        Err(_) => HttpStatus::BadRequest,
    }
}

/// Records an accepted contribution in the live round and gives the status
/// to answer it with. The round may have been rotated since the solution
/// was validated: recording decides.
pub fn settle(aggregator: &mut Aggregator, contribution: Contribution) -> (status: HttpStatus)
    requires
        old(aggregator).wf(),
    ensures
        final(aggregator).wf(),
        final(aggregator)@ == old(aggregator)@.record(contribution).0,
        status == recorded_status(old(aggregator)@.record(contribution).1),
{
    match aggregator.record_contribution(contribution) {
        Ok(_) => HttpStatus::Success,
        Err(_) => HttpStatus::BadRequest,
    }
}

/// What a confirmed transaction reports of its execution.
#[derive(Debug, PartialEq, Eq)]
pub struct TransactionMeta {
    /// The data that the program returned, in base64, if it returned any.
    pub return_data: Option<String>,
}

/// Why no member id could be read from a registration.
#[derive(Clone, Copy, Debug, PartialEq, Eq, Structural)]
pub enum RegisterError {
    /// The transaction has no metadata, or the metadata no return data.
    MissingReturnData,
    /// The return data is not well-formed base64.
    InvalidEncoding,
    /// The return data is not eight bytes long.
    WrongLength,
}

/// The member id that return data of `bytes` holds: the data must be the id
/// as eight little-endian bytes.
pub open spec fn member_id_of(bytes: Seq<u8>) -> Result<u64, RegisterError> {
    if bytes.len() == 8 {
        Ok(le_value(bytes) as u64)
    } else {
        Err(RegisterError::WrongLength)
    }
}

/// The member id that a registration returned: the return data, decoded
/// from base64, must be the id as eight little-endian bytes.
pub open spec fn returned_member_id(meta: Option<TransactionMeta>) -> Result<u64, RegisterError> {
    match meta {
        Some(TransactionMeta { return_data: Some(text) }) => match base64_standard(text@) {
            Some(bytes) => member_id_of(bytes),
            None => Err(RegisterError::InvalidEncoding),
        },
        _ => Err(RegisterError::MissingReturnData),
    }
}

/// Reads a member id from decoded return data.
pub fn member_id_from_bytes(bytes: &[u8]) -> (id: Result<u64, RegisterError>)
    ensures
        id == member_id_of(bytes@),
        id == (if bytes@.len() == 8 {
            Ok::<u64, RegisterError>(le_value(bytes@) as u64)
        } else {
            Err::<u64, RegisterError>(RegisterError::WrongLength)
        }),
{
    if bytes.len() != 8 {
        return Err(RegisterError::WrongLength);
    }
    let id = read_array::<8>(bytes, 0);
    proof {
        assert(id@ =~= bytes@);
    }
    Ok(u64_from_le(&id))
}

/// Reads the id of a newly registered member from the metadata of the
/// transaction that registered it.
pub fn register_return_data(meta: Option<&TransactionMeta>) -> (member_id: Result<
    u64,
    RegisterError,
>)
    ensures
        member_id == returned_member_id(
            match meta {
                Some(m) => Some(*m),
                None => None,
            },
        ),
{
    let text = match meta {
        Some(TransactionMeta { return_data: Some(text) }) => text,
        _ => {
            return Err(RegisterError::MissingReturnData);
        },
    };
    match base64_decode(text.as_str()) {
        Ok(bytes) => member_id_from_bytes(bytes.as_slice()),
        Err(_) => Err(RegisterError::InvalidEncoding),
    }
}

} // verus!
