//! The transfer guard: a veto on recipients, consulted before a transfer is applied.

use crate::account::Account;
use crate::error::GuardError;
use vstd::prelude::*;

verus! {

/// A predicate on recipients that a ledger consults before it moves any token.
pub trait Guard {
    /// The reason for which the guard refuses `candidate`, or `None` where it lets the
    /// transfer pass.
    spec fn veto(&self, candidate: Account) -> Option<Seq<char>>;

    /// Answers whether `candidate` may receive tokens.
    fn check(&self, candidate: &Account) -> (outcome: Result<(), GuardError>)
        ensures
            match outcome {
                Ok(()) => self.veto(*candidate) is None,
                Err(refusal) => self.veto(*candidate) == Some(refusal.reason()),
            },
    ;
}

/// The guard that refuses nobody, for a ledger without a veto.
#[derive(Clone, Copy, Debug)]
pub struct Unguarded;

impl Guard for Unguarded {
    open spec fn veto(&self, candidate: Account) -> Option<Seq<char>> {
        None
    }

    fn check(&self, candidate: &Account) -> (outcome: Result<(), GuardError>) {
        Ok(())
    }
}

/// The reason that `HatedStorage` gives for a refusal.
pub open spec fn hated_reason() -> Seq<char> {
    "I hate this account!"@
}

/// A guard that refuses exactly one account, the hated one.
#[derive(Debug)]
pub struct HatedStorage {
    pub hated_account: Account,
}

impl HatedStorage {
    /// A guard whose hated account is the sentinel, the identifier of all `0xFF` bytes.
    pub fn new() -> (guard: HatedStorage)
        ensures
            guard.hated_account == Account::filled(0xFF),
    {
        HatedStorage { hated_account: Account::sentinel() }
    }

    /// The account that is refused at present.
    pub fn get_hated_account(&self) -> (account: Account)
        ensures
            account == self.hated_account,
    {
        self.hated_account
    }

    /// Makes `account` the refused one, whatever it is and whoever asks.
    pub fn set_hated_account(&mut self, account: Account)
        ensures
            final(self).hated_account == account,
    {
        self.hated_account = account;
    }
}

impl Guard for HatedStorage {
    open spec fn veto(&self, candidate: Account) -> Option<Seq<char>> {
        if candidate == self.hated_account {
            Some(hated_reason())
        } else {
            None
        }
    }

    fn check(&self, candidate: &Account) -> (outcome: Result<(), GuardError>) {
        if *candidate == self.hated_account {
            Err(GuardError::Rejected("I hate this account!".to_owned()))
        } else {
            Ok(())
        }
    }
}

} // verus!
