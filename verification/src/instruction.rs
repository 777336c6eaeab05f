//! Instruction tags and fixed-layout argument records of the pool program.
//!
//! Instruction data is one tag byte followed by the argument record of that
//! instruction. A record is the plain concatenation of its fields, in the
//! order they are declared, with no padding.

use vstd::prelude::*;
use crate::bytes::{read_array, write_bytes};
use crate::error::ProgramError;

verus! {

/// The instructions the pool program understands.
#[derive(Clone, Copy, Debug, PartialEq, Eq, Structural)]
pub enum PoolInstruction {
    Certify,
    Initialize,
    Submit,
}

impl PoolInstruction {
    /// The one-byte tag that opens the instruction data.
    pub open spec fn tag(self) -> u8 {
        match self {
            PoolInstruction::Certify => 100,
            PoolInstruction::Initialize => 101,
            PoolInstruction::Submit => 102,
        }
    }

    /// The tag as a number.
    pub fn to_u8(&self) -> (tag: u8)
        ensures
            tag == self.tag(),
    {
        match self {
            PoolInstruction::Certify => 100,
            PoolInstruction::Initialize => 101,
            PoolInstruction::Submit => 102,
        }
    }

    /// The instruction data prefix: a single byte holding the tag.
    pub fn to_vec(&self) -> (bytes: Vec<u8>)
        ensures
            bytes@ == seq![self.tag()],
    {
        let mut bytes: Vec<u8> = Vec::new();
        bytes.push(self.to_u8());
        bytes
    }

    /// The instruction that `number` is the tag of, if it is one.
    pub fn try_from_primitive(number: u8) -> (instruction: Option<PoolInstruction>)
        ensures
            instruction matches Some(i) ==> i.tag() == number,
            instruction is None ==> forall|i: PoolInstruction| i.tag() != number,
    {
        if number == 100 {
            Some(PoolInstruction::Certify)
        } else if number == 101 {
            Some(PoolInstruction::Initialize)
        } else if number == 102 {
            Some(PoolInstruction::Submit)
        } else {
            None
        }
    }
}

/// Arguments of `Certify`.
#[derive(Clone, Copy, Debug, PartialEq, Eq)]
pub struct CertifyArgs {
    pub digest: [u8; 16],
    pub nonce: [u8; 8],
    pub signature: [u8; 32],
}

/// Arguments of `Initialize`.
#[derive(Clone, Copy, Debug, PartialEq, Eq)]
pub struct InitializeArgs {
    pub pool_bump: u8,
}

/// Arguments of `Submit`.
#[derive(Clone, Copy, Debug, PartialEq, Eq)]
pub struct SubmitArgs {
    pub attestation: [u8; 32],
    pub batch_bump: u8,
    pub digest: [u8; 16],
    pub nonce: [u8; 8],
}

/// Arguments of a claim: the amount, as a little-endian integer.
#[derive(Clone, Copy, Debug, PartialEq, Eq)]
pub struct ClaimArgs {
    pub amount: [u8; 8],
}

impl CertifyArgs {
    /// The length of the record in bytes.
    pub const SIZE: usize = 56;

    /// The record's layout.
    pub open spec fn bytes(self) -> Seq<u8> {
        self.digest@ + self.nonce@ + self.signature@
    }

    /// Writes the record.
    pub fn to_bytes(&self) -> (bytes: Vec<u8>)
        ensures
            bytes@ == self.bytes(),
            bytes@.len() == Self::SIZE,
    {
        let mut bytes: Vec<u8> = Vec::new();
        write_bytes(&mut bytes, &self.digest);
        write_bytes(&mut bytes, &self.nonce);
        write_bytes(&mut bytes, &self.signature);
        bytes
    }

    /// Reads a record: `data` must be exactly one record long.
    pub fn try_from_bytes(data: &[u8]) -> (parsed: Result<CertifyArgs, ProgramError>)
        ensures
            data@.len() == Self::SIZE <==> parsed is Ok,
            parsed matches Ok(args) ==> args.bytes() == data@,
            parsed matches Err(e) ==> e == ProgramError::InvalidInstructionData,
    {
        if data.len() != 56 {
            return Err(ProgramError::InvalidInstructionData);
        }
        let args = CertifyArgs {
            digest: read_array::<16>(data, 0),
            nonce: read_array::<8>(data, 16),
            signature: read_array::<32>(data, 24),
        };
        assert(args.bytes() =~= data@);
        Ok(args)
    }

    /// Two records with the same layout are the same record.
    pub proof fn lemma_bytes_injective(self, other: CertifyArgs)
        requires
            self.bytes() == other.bytes(),
        ensures
            self == other,
    {
        assert(self.digest@ =~= self.bytes().subrange(0, 16));
        assert(other.digest@ =~= other.bytes().subrange(0, 16));
        assert(self.nonce@ =~= self.bytes().subrange(16, 24));
        assert(other.nonce@ =~= other.bytes().subrange(16, 24));
        assert(self.signature@ =~= self.bytes().subrange(24, 56));
        assert(other.signature@ =~= other.bytes().subrange(24, 56));
        assert(self.digest =~= other.digest);
        assert(self.nonce =~= other.nonce);
        assert(self.signature =~= other.signature);
    }
}

impl InitializeArgs {
    /// The length of the record in bytes.
    pub const SIZE: usize = 1;

    /// The record's layout.
    pub open spec fn bytes(self) -> Seq<u8> {
        seq![self.pool_bump]
    }

    /// Writes the record.
    pub fn to_bytes(&self) -> (bytes: Vec<u8>)
        ensures
            bytes@ == self.bytes(),
            bytes@.len() == Self::SIZE,
    {
        let mut bytes: Vec<u8> = Vec::new();
        bytes.push(self.pool_bump);
        bytes
    }

    /// Reads a record: `data` must be exactly one record long.
    pub fn try_from_bytes(data: &[u8]) -> (parsed: Result<InitializeArgs, ProgramError>)
        ensures
            data@.len() == Self::SIZE <==> parsed is Ok,
            parsed matches Ok(args) ==> args.bytes() == data@,
            parsed matches Err(e) ==> e == ProgramError::InvalidInstructionData,
    {
        if data.len() != 1 {
            return Err(ProgramError::InvalidInstructionData);
        }
        let args = InitializeArgs { pool_bump: data[0] };
        assert(args.bytes() =~= data@);
        Ok(args)
    }

    /// Two records with the same layout are the same record.
    pub proof fn lemma_bytes_injective(self, other: InitializeArgs)
        requires
            self.bytes() == other.bytes(),
        ensures
            self == other,
    {
        assert(self.bytes()[0] == self.pool_bump);
        assert(other.bytes()[0] == other.pool_bump);
    }
}

impl SubmitArgs {
    /// The length of the record in bytes.
    pub const SIZE: usize = 57;

    /// The record's layout.
    pub open spec fn bytes(self) -> Seq<u8> {
        self.attestation@ + seq![self.batch_bump] + self.digest@ + self.nonce@
    }

    /// Writes the record.
    pub fn to_bytes(&self) -> (bytes: Vec<u8>)
        ensures
            bytes@ == self.bytes(),
            bytes@.len() == Self::SIZE,
    {
        let mut bytes: Vec<u8> = Vec::new();
        write_bytes(&mut bytes, &self.attestation);
        bytes.push(self.batch_bump);
        write_bytes(&mut bytes, &self.digest);
        write_bytes(&mut bytes, &self.nonce);
        assert(bytes@ =~= self.bytes());
        bytes
    }

    /// Reads a record: `data` must be exactly one record long.
    pub fn try_from_bytes(data: &[u8]) -> (parsed: Result<SubmitArgs, ProgramError>)
        ensures
            data@.len() == Self::SIZE <==> parsed is Ok,
            parsed matches Ok(args) ==> args.bytes() == data@,
            parsed matches Err(e) ==> e == ProgramError::InvalidInstructionData,
    {
        if data.len() != 57 {
            return Err(ProgramError::InvalidInstructionData);
        }
        let args = SubmitArgs {
            attestation: read_array::<32>(data, 0),
            batch_bump: data[32],
            digest: read_array::<16>(data, 33),
            nonce: read_array::<8>(data, 49),
        };
        assert(args.bytes() =~= data@);
        Ok(args)
    }

    /// Two records with the same layout are the same record.
    pub proof fn lemma_bytes_injective(self, other: SubmitArgs)
        requires
            self.bytes() == other.bytes(),
        ensures
            self == other,
    {
        assert(self.attestation@ =~= self.bytes().subrange(0, 32));
        assert(other.attestation@ =~= other.bytes().subrange(0, 32));
        assert(self.batch_bump == self.bytes()[32]);
        assert(other.batch_bump == other.bytes()[32]);
        assert(self.digest@ =~= self.bytes().subrange(33, 49));
        assert(other.digest@ =~= other.bytes().subrange(33, 49));
        assert(self.nonce@ =~= self.bytes().subrange(49, 57));
        assert(other.nonce@ =~= other.bytes().subrange(49, 57));
        assert(self.attestation =~= other.attestation);
        assert(self.digest =~= other.digest);
        assert(self.nonce =~= other.nonce);
    }
}

impl ClaimArgs {
    /// The length of the record in bytes.
    pub const SIZE: usize = 8;

    /// The record's layout.
    pub open spec fn bytes(self) -> Seq<u8> {
        self.amount@
    }

    /// Writes the record.
    pub fn to_bytes(&self) -> (bytes: Vec<u8>)
        ensures
            bytes@ == self.bytes(),
            bytes@.len() == Self::SIZE,
    {
        let mut bytes: Vec<u8> = Vec::new();
        write_bytes(&mut bytes, &self.amount);
        bytes
    }

    /// Reads a record: `data` must be exactly one record long.
    pub fn try_from_bytes(data: &[u8]) -> (parsed: Result<ClaimArgs, ProgramError>)
        ensures
            data@.len() == Self::SIZE <==> parsed is Ok,
            parsed matches Ok(args) ==> args.bytes() == data@,
            parsed matches Err(e) ==> e == ProgramError::InvalidInstructionData,
    {
        if data.len() != 8 {
            return Err(ProgramError::InvalidInstructionData);
        }
        let args = ClaimArgs { amount: read_array::<8>(data, 0) };
        assert(args.bytes() =~= data@);
        Ok(args)
    }
}

/// An account that an instruction touches.
#[derive(Clone, Copy, Debug, PartialEq, Eq)]
pub struct AccountMeta {
    pub pubkey: [u8; 32],
    pub is_signer: bool,
    pub is_writable: bool,
}

/// An instruction for the pool program, ready to be put in a transaction.
#[derive(Debug, PartialEq, Eq)]
pub struct Instruction {
    pub program_id: [u8; 32],
    pub accounts: Vec<AccountMeta>,
    pub data: Vec<u8>,
}

/// Builds an initialize instruction for the program `program_id`, signed
/// and paid for by `signer`.
pub fn initialize(program_id: [u8; 32], signer: [u8; 32]) -> (instruction: Instruction)
    ensures
        instruction.program_id == program_id,
        instruction.accounts@ == seq![
            AccountMeta { pubkey: signer, is_signer: true, is_writable: true },
        ],
        instruction.data@ == seq![PoolInstruction::Initialize.tag()],
{
    let mut accounts: Vec<AccountMeta> = Vec::new();
    accounts.push(AccountMeta { pubkey: signer, is_signer: true, is_writable: true });
    Instruction { program_id, accounts, data: PoolInstruction::Initialize.to_vec() }
}

/// The data of an instruction: its tag, then its argument record.
pub open spec fn instruction_data(instruction: PoolInstruction, record: Seq<u8>) -> Seq<u8> {
    seq![instruction.tag()] + record
}

/// The data of a `Submit` instruction that carries `args`.
pub fn submit_data(args: &SubmitArgs) -> (data: Vec<u8>)
    ensures
        data@ == instruction_data(PoolInstruction::Submit, args.bytes()),
{
    let mut data = PoolInstruction::Submit.to_vec();
    let record = args.to_bytes();
    write_bytes(&mut data, record.as_slice());
    data
}

/// The data of a `Certify` instruction that carries `args`.
pub fn certify_data(args: &CertifyArgs) -> (data: Vec<u8>)
    ensures
        data@ == instruction_data(PoolInstruction::Certify, args.bytes()),
{
    let mut data = PoolInstruction::Certify.to_vec();
    let record = args.to_bytes();
    write_bytes(&mut data, record.as_slice());
    data
}

} // verus!
