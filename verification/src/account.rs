//! Accounts: per-owner records that meter mutations against a fixed quota.

use vstd::prelude::*;

use crate::DEFAULT_MAX_MUTATIONS;
use crate::types::{AccountInfo, ClientError, PublicKey};

verus! {

/// Spec-level image of an account.
#[verifier::ext_equal]
pub ghost struct AccountV {
    pub owner_key: Seq<u8>,
    pub mutations_done: u64,
    pub mutations_available: u64,
}

/// An account: the owner's key and the two mutation counters. Their sum is
/// constant over the account's lifetime.
#[derive(Clone, Copy, Debug, PartialEq, Eq)]
pub struct Account {
    owner_key: PublicKey,
    mutations_done: u64,
    mutations_available: u64,
}

impl View for Account {
    type V = AccountV;

    closed spec fn view(&self) -> AccountV {
        AccountV {
            owner_key: self.owner_key@,
            mutations_done: self.mutations_done,
            mutations_available: self.mutations_available,
        }
    }
}

/// Quota conservation: what was spent and what is left always sum to the
/// configured maximum.
pub open spec fn account_inv(a: AccountV) -> bool {
    a.mutations_done + a.mutations_available == DEFAULT_MAX_MUTATIONS
}

/// Outcome of charging one mutation: fails only on an exhausted quota.
pub open spec fn charge_account(a: AccountV) -> Result<AccountV, ClientError> {
    if a.mutations_available == 0 {
        Err(ClientError::LowBalance)
    } else {
        Ok(AccountV {
            owner_key: a.owner_key,
            mutations_done: (a.mutations_done + 1) as u64,
            mutations_available: (a.mutations_available - 1) as u64,
        })
    }
}

impl Account {
    /// A fresh account with nothing spent.
    pub fn new(owner_key: PublicKey) -> (r: Account)
        ensures
            r@ == (AccountV {
                owner_key: owner_key@,
                mutations_done: 0,
                mutations_available: DEFAULT_MAX_MUTATIONS,
            }),
            account_inv(r@),
    {
        Account { owner_key, mutations_done: 0, mutations_available: DEFAULT_MAX_MUTATIONS }
    }

    /// The externally visible counters.
    pub fn account_info(&self) -> (r: AccountInfo)
        ensures
            r.mutations_done == self@.mutations_done,
            r.mutations_available == self@.mutations_available,
    {
        AccountInfo {
            mutations_done: self.mutations_done,
            mutations_available: self.mutations_available,
        }
    }

    /// Spends one mutation.
    pub fn charge(&mut self) -> (r: Result<(), ClientError>)
        requires
            account_inv(old(self)@),
        ensures
            account_inv(final(self)@),
            match r {
                Ok(()) => charge_account(old(self)@) == Ok::<AccountV, ClientError>(
                    final(self)@),
                Err(e) => charge_account(old(self)@) == Err::<AccountV, ClientError>(e)
                    && *final(self) == *old(self),
            },
    {
        if self.mutations_available == 0 {
            return Err(ClientError::LowBalance);
        }
        self.mutations_done = self.mutations_done + 1;
        self.mutations_available = self.mutations_available - 1;
        Ok(())
    }
}

} // verus!
