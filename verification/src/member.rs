//! Pool members and their balances.

use vstd::prelude::*;
use crate::error::ProgramError;

verus! {

/// A registered member of the pool.
#[derive(Clone, Copy, Debug, PartialEq, Eq)]
pub struct Member {
    /// The member's number, given out by the pool program at registration.
    pub id: u64,
    /// The address of the pool.
    pub pool: [u8; 32],
    /// The public key that signs for the member.
    pub authority: [u8; 32],
    /// What the member can claim.
    pub balance: u64,
    /// What the member has earned in all.
    pub total_balance: u64,
}

impl Member {
    /// The record of a member that has just registered: nothing earned yet.
    pub fn new(id: u64, pool: [u8; 32], authority: [u8; 32]) -> (member: Member)
        ensures
            member == (Member { id, pool, authority, balance: 0, total_balance: 0 }),
    {
        Member { id, pool, authority, balance: 0, total_balance: 0 }
    }

    /// Takes `amount` off the member's balance. An amount that the balance
    /// does not cover is refused and changes nothing.
    pub fn claim(&mut self, amount: u64) -> (result: Result<(), ProgramError>)
        ensures
            amount <= old(self).balance ==> result is Ok && *final(self) == (Member {
                balance: (old(self).balance - amount) as u64,
                ..*old(self)
            }),
            amount > old(self).balance ==> result == Err::<(), ProgramError>(
                ProgramError::InsufficientFunds,
            ) && *final(self) == *old(self),
    {
        match self.balance.checked_sub(amount) {
            Some(rest) => {
                self.balance = rest;
                Ok(())
            },
            None => Err(ProgramError::InsufficientFunds),
        }
    }

    /// Whether `delta` can be added to both balances of the member.
    pub open spec fn can_take(self, delta: u64) -> bool {
        self.balance + delta <= u64::MAX && self.total_balance + delta <= u64::MAX
    }

    /// Credits a reward: `delta` is added to the claimable balance and to the
    /// total earned. A reward that would overflow either is not applied.
    pub fn apply_reward_delta(&mut self, delta: u64) -> (applied: bool)
        ensures
            applied == old(self).can_take(delta),
            applied ==> *final(self) == (Member {
                balance: (old(self).balance + delta) as u64,
                total_balance: (old(self).total_balance + delta) as u64,
                ..*old(self)
            }),
            !applied ==> *final(self) == *old(self),
    {
        match (self.balance.checked_add(delta), self.total_balance.checked_add(delta)) {
            (Some(balance), Some(total_balance)) => {
                self.balance = balance;
                self.total_balance = total_balance;
                true
            },
            _ => false,
        }
    }
}

} // verus!
