//! Account identifiers: opaque 32-byte values that only serve as keys.

use crate::table::Key;
use vstd::prelude::*;
use vstd::std_specs::cmp::PartialEqSpecImpl;
use vstd::std_specs::convert::FromSpecImpl;

verus! {

/// An account: a fixed-size identifier with no structure of its own.
#[derive(Clone, Copy, Debug)]
pub struct Account {
    pub bytes: [u8; 32],
}

impl Account {
    /// The identifier whose bytes are all `fill`.
    pub open spec fn filled(fill: u8) -> Account {
        Account { bytes: vstd::array::spec_array_fill_for_copy_type::<u8, 32>(fill) }
    }

    /// The account with the given identifier.
    pub fn from_bytes(bytes: [u8; 32]) -> (account: Account)
        ensures
            account.bytes == bytes,
    {
        Account { bytes }
    }

    /// The account's identifier.
    pub fn to_bytes(&self) -> (bytes: [u8; 32])
        ensures
            bytes == self.bytes,
    {
        self.bytes
    }

    /// The account of all `0xFF` bytes, which stands for "no account chosen yet".
    pub fn sentinel() -> (account: Account)
        ensures
            account == Account::filled(0xFF),
    {
        Account { bytes: [0xFFu8; 32] }
    }
}

/// Every byte of `Account::filled(fill)` is `fill`, and it is the only account of
/// which that holds.
pub proof fn lemma_filled(fill: u8, account: Account)
    ensures
        forall|i: int| 0 <= i < 32 ==> Account::filled(fill).bytes[i] == fill,
        (forall|i: int| 0 <= i < 32 ==> account.bytes[i] == fill) ==> account == Account::filled(
            fill,
        ),
{
    if forall|i: int| 0 <= i < 32 ==> account.bytes[i] == fill {
        assert(account.bytes =~= Account::filled(fill).bytes);
    }
}

/// An identifier converts into its account.
impl From<[u8; 32]> for Account {
    fn from(bytes: [u8; 32]) -> (account: Account) {
        Account { bytes }
    }
}

impl FromSpecImpl<[u8; 32]> for Account {
    open spec fn obeys_from_spec() -> bool {
        true
    }

    open spec fn from_spec(bytes: [u8; 32]) -> Account {
        Account { bytes }
    }
}

/// Two accounts are equal when all their bytes are.
impl PartialEq for Account {
    fn eq(&self, other: &Account) -> (same: bool) {
        let mut i: usize = 0;
        while i < 32
            invariant
                i <= 32,
                forall|j: int| 0 <= j < i ==> self.bytes[j] == other.bytes[j],
            decreases 32 - i,
        {
            if self.bytes[i] != other.bytes[i] {
                return false;
            }
            i += 1;
        }
        assert(self.bytes =~= other.bytes);
        true
    }
}

impl PartialEqSpecImpl for Account {
    open spec fn obeys_eq_spec() -> bool {
        true
    }

    open spec fn eq_spec(&self, other: &Account) -> bool {
        *self == *other
    }
}

impl Eq for Account {}

impl Key for Account {
    fn same(&self, other: &Account) -> (same: bool) {
        *self == *other
    }
}

/// A pair of accounts is the key of an allowance: the owner, then the spender.
impl Key for (Account, Account) {
    fn same(&self, other: &(Account, Account)) -> (same: bool) {
        self.0 == other.0 && self.1 == other.1
    }
}

} // verus!
