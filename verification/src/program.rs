//! What the pool program decides from an instruction's data and accounts,
//! before it touches any account.

use vstd::prelude::*;
use crate::bytes::{le_value, u64_from_le};
use crate::error::ProgramError;
use crate::instruction::{ClaimArgs, InitializeArgs};

verus! {

/// The number of accounts a claim comes with.
pub const CLAIM_ACCOUNTS: usize = 9;

/// The number of accounts an initialization comes with.
pub const INITIALIZE_ACCOUNTS: usize = 9;

/// What `process_claim` answers.
pub open spec fn claim_decision(accounts: usize, data: Seq<u8>) -> Result<u64, ProgramError> {
    if data.len() != ClaimArgs::SIZE {
        Err(ProgramError::InvalidInstructionData)
    } else if accounts != CLAIM_ACCOUNTS {
        Err(ProgramError::NotEnoughAccountKeys)
    } else {
        Ok(le_value(data) as u64)
    }
}

/// Reads a claim: the instruction data is parsed first, then the number of
/// accounts is checked. The answer is the amount to take off the member's
/// balance and to claim for the beneficiary.
pub fn process_claim(accounts: usize, data: &[u8]) -> (amount: Result<u64, ProgramError>)
    ensures
        amount == claim_decision(accounts, data@),
{
    let args = match ClaimArgs::try_from_bytes(data) {
        Ok(args) => args,
        Err(e) => {
            return Err(e);
        },
    };
    if accounts != CLAIM_ACCOUNTS {
        return Err(ProgramError::NotEnoughAccountKeys);
    }
    Ok(u64_from_le(&args.amount))
}

/// What `process_initialize` answers.
pub open spec fn initialize_decision(accounts: usize, data: Seq<u8>) -> Result<
    InitializeArgs,
    ProgramError,
> {
    if data.len() != InitializeArgs::SIZE {
        Err(ProgramError::InvalidInstructionData)
    } else if accounts != INITIALIZE_ACCOUNTS {
        Err(ProgramError::NotEnoughAccountKeys)
    } else {
        Ok(InitializeArgs { pool_bump: data[0] })
    }
}

/// Reads an initialization: the instruction data is parsed first, then the
/// number of accounts is checked. The answer holds the bump of the pool
/// account that is to be created.
pub fn process_initialize(accounts: usize, data: &[u8]) -> (args: Result<
    InitializeArgs,
    ProgramError,
>)
    ensures
        args == initialize_decision(accounts, data@),
{
    let args = match InitializeArgs::try_from_bytes(data) {
        Ok(args) => args,
        Err(e) => {
            return Err(e);
        },
    };
    if accounts != INITIALIZE_ACCOUNTS {
        return Err(ProgramError::NotEnoughAccountKeys);
    }
    assert(args.bytes()[0] == args.pool_bump);
    Ok(args)
}

} // verus!
