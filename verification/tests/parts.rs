use my_psp22::account::Account;
use my_psp22::error::{Error, GuardError};
use my_psp22::guard::{Guard, HatedStorage};
use my_psp22::table::{Key, Table};

#[test]
fn guard_starts_with_the_sentinel() {
    let guard = HatedStorage::new();
    assert_eq!(guard.get_hated_account().to_bytes(), [0xFF; 32]);
    assert_eq!(guard.hated_account, Account::sentinel());
}

#[test]
fn guard_rejects_only_the_hated_account() {
    let mut guard = HatedStorage::new();
    let hated = Account::from_bytes([9; 32]);
    let mut nearly = [9u8; 32];
    nearly[31] = 8;

    assert_eq!(guard.check(&hated), Ok(()));
    guard.set_hated_account(hated);
    assert_eq!(guard.get_hated_account(), hated);
    assert_eq!(
        guard.check(&hated),
        Err(GuardError::Rejected(String::from("I hate this account!")))
    );
    assert_eq!(guard.check(&Account::from_bytes(nearly)), Ok(()));
    assert_eq!(guard.check(&Account::sentinel()), Ok(()));
}

#[test]
fn set_hated_account_overwrites() {
    let mut guard = HatedStorage::new();
    guard.set_hated_account(Account::from_bytes([1; 32]));
    guard.set_hated_account(Account::from_bytes([2; 32]));
    assert_eq!(guard.get_hated_account(), Account::from_bytes([2; 32]));
    assert_eq!(guard.check(&Account::from_bytes([1; 32])), Ok(()));
    assert!(guard.check(&Account::from_bytes([2; 32])).is_err());
}

#[test]
fn errors_from_the_guard_and_in_general_form() {
    let refusal = GuardError::Rejected(String::from("no"));
    assert_eq!(Error::from_guard(refusal), Error::Rejected(String::from("no")));

    assert_eq!(Error::Rejected(String::from("no")).generalize(), Error::Custom(String::from("no")));
    assert_eq!(Error::Custom(String::from("x")).generalize(), Error::Custom(String::from("x")));
    assert_eq!(Error::InsufficientBalance.generalize(), Error::InsufficientBalance);
    assert_eq!(Error::InsufficientAllowance.generalize(), Error::InsufficientAllowance);
    assert_eq!(Error::Overflow.generalize(), Error::Overflow);
}

#[test]
fn accounts_compare_by_their_bytes() {
    let mut bytes = [0u8; 32];
    bytes[0] = 1;
    let a = Account::from_bytes(bytes);
    let b = Account::from(bytes);
    assert_eq!(a, b);
    assert!(a.same(&b));
    assert_eq!(a.to_bytes(), bytes);

    for i in 0..32 {
        let mut other = bytes;
        other[i] ^= 0x80;
        assert_ne!(a, Account::from_bytes(other));
        assert!(!a.same(&Account::from_bytes(other)));
    }
    assert!((a, b).same(&(b, a)));
    assert!(!(a, Account::sentinel()).same(&(Account::sentinel(), a)));
    assert!(!(a, Account::sentinel()).same(&(a, a)));
}

#[test]
fn table_stores_one_amount_per_key() {
    let key = |tag: u8| Account::from_bytes([tag; 32]);
    let mut table: Table<Account> = Table::new();
    assert_eq!(table.get(&key(1)), 0);

    table.set(key(1), 10);
    table.set(key(2), 20);
    table.set(key(3), 30);
    table.set(key(2), 21);
    assert_eq!(table.get(&key(1)), 10);
    assert_eq!(table.get(&key(2)), 21);
    assert_eq!(table.get(&key(3)), 30);
    assert_eq!(table.get(&key(4)), 0);

    table.set(key(1), 0);
    table.set(key(4), 0);
    assert_eq!(table.get(&key(1)), 0);
    assert_eq!(table.get(&key(2)), 21);
    assert_eq!(table.get(&key(3)), 30);

    table.set(key(3), 0);
    table.set(key(2), 0);
    assert_eq!(table.get(&key(2)), 0);
    assert_eq!(table.get(&key(3)), 0);
    table.set(key(1), u128::MAX);
    assert_eq!(table.get(&key(1)), u128::MAX);
}

#[test]
fn table_keys_can_be_pairs() {
    let key = |tag: u8| Account::from_bytes([tag; 32]);
    let mut table: Table<(Account, Account)> = Table::new();
    table.set((key(1), key(2)), 5);
    table.set((key(2), key(1)), 6);
    assert_eq!(table.get(&(key(1), key(2))), 5);
    assert_eq!(table.get(&(key(2), key(1))), 6);
    assert_eq!(table.get(&(key(1), key(1))), 0);
}
