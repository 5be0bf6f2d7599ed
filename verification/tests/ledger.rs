use my_psp22::account::Account;
use my_psp22::error::Error;
use my_psp22::guard::{Guard, HatedStorage, Unguarded};
use my_psp22::ledger::{TokenLedger, TransferEvent};

fn account(tag: u8) -> Account {
    Account::from_bytes([tag; 32])
}

fn funded(holder: Account, amount: u128) -> TokenLedger {
    let mut ledger = TokenLedger::new();
    assert_eq!(ledger.mint(holder, amount), Ok(()));
    ledger
}

fn sum_of_balances(ledger: &TokenLedger, accounts: &[Account]) -> u128 {
    accounts.iter().map(|a| ledger.balance_of(a)).sum()
}

#[test]
fn new_ledger_is_empty() {
    let mut ledger = TokenLedger::new();
    assert_eq!(ledger.total_supply(), 0);
    assert_eq!(ledger.balance_of(&account(1)), 0);
    assert_eq!(ledger.allowance(&account(1), &account(2)), 0);
    assert!(ledger.take_events().is_empty());
}

#[test]
fn mint_raises_balance_and_supply() {
    let mut ledger = TokenLedger::new();
    assert_eq!(ledger.mint(account(1), 7), Ok(()));
    assert_eq!(ledger.mint(account(1), 3), Ok(()));
    assert_eq!(ledger.mint(account(2), 5), Ok(()));
    assert_eq!(ledger.balance_of(&account(1)), 10);
    assert_eq!(ledger.balance_of(&account(2)), 5);
    assert_eq!(ledger.total_supply(), 15);
    assert!(ledger.take_events().is_empty());
}

#[test]
fn mint_overflow_changes_nothing() {
    let mut ledger = funded(account(1), u128::MAX);
    assert_eq!(ledger.mint(account(2), 1), Err(Error::Overflow));
    assert_eq!(ledger.mint(account(1), 1), Err(Error::Overflow));
    assert_eq!(ledger.mint(account(2), 0), Ok(()));
    assert_eq!(ledger.balance_of(&account(1)), u128::MAX);
    assert_eq!(ledger.balance_of(&account(2)), 0);
    assert_eq!(ledger.total_supply(), u128::MAX);
}

#[test]
fn burn_lowers_balance_and_supply() {
    let mut ledger = funded(account(1), 10);
    assert_eq!(ledger.burn(account(1), 4), Ok(()));
    assert_eq!(ledger.balance_of(&account(1)), 6);
    assert_eq!(ledger.total_supply(), 6);
    assert_eq!(ledger.burn(account(1), 7), Err(Error::InsufficientBalance));
    assert_eq!(ledger.burn(account(2), 1), Err(Error::InsufficientBalance));
    assert_eq!(ledger.balance_of(&account(1)), 6);
    assert_eq!(ledger.total_supply(), 6);
    assert_eq!(ledger.burn(account(1), 6), Ok(()));
    assert_eq!(ledger.burn(account(1), 0), Ok(()));
    assert_eq!(ledger.balance_of(&account(1)), 0);
    assert_eq!(ledger.total_supply(), 0);
}

#[test]
fn transfer_moves_tokens_and_records() {
    let guard = HatedStorage::new();
    let mut ledger = funded(account(1), 100);

    assert_eq!(ledger.transfer(&guard, account(1), account(2), 50), Ok(()));
    assert_eq!(ledger.balance_of(&account(1)), 50);
    assert_eq!(ledger.balance_of(&account(2)), 50);
    assert_eq!(ledger.total_supply(), 100);
    assert_eq!(
        ledger.take_events(),
        vec![TransferEvent { from: account(1), to: account(2), amount: 50 }]
    );
    assert!(ledger.take_events().is_empty());
}

#[test]
fn transfer_of_whole_balance_empties_sender() {
    let guard = HatedStorage::new();
    let mut ledger = funded(account(1), 100);
    assert_eq!(ledger.transfer(&guard, account(1), account(2), 100), Ok(()));
    assert_eq!(ledger.balance_of(&account(1)), 0);
    assert_eq!(ledger.balance_of(&account(2)), 100);
    assert_eq!(ledger.transfer(&guard, account(1), account(2), 1), Err(Error::InsufficientBalance));
    assert_eq!(ledger.transfer(&guard, account(2), account(1), 100), Ok(()));
    assert_eq!(ledger.balance_of(&account(1)), 100);
    assert_eq!(ledger.balance_of(&account(2)), 0);
}

#[test]
fn zero_transfer_is_recorded_and_moves_nothing() {
    let guard = HatedStorage::new();
    let mut ledger = funded(account(1), 100);

    assert_eq!(ledger.transfer(&guard, account(3), account(2), 0), Ok(()));
    assert_eq!(ledger.transfer(&guard, account(1), account(2), 0), Ok(()));
    assert_eq!(ledger.balance_of(&account(1)), 100);
    assert_eq!(ledger.balance_of(&account(2)), 0);
    assert_eq!(ledger.balance_of(&account(3)), 0);
    assert_eq!(
        ledger.take_events(),
        vec![
            TransferEvent { from: account(3), to: account(2), amount: 0 },
            TransferEvent { from: account(1), to: account(2), amount: 0 },
        ]
    );
}

#[test]
fn transfer_to_self_keeps_balance() {
    let guard = HatedStorage::new();
    let mut ledger = funded(account(1), 100);
    assert_eq!(ledger.transfer(&guard, account(1), account(1), 100), Ok(()));
    assert_eq!(ledger.balance_of(&account(1)), 100);
    assert_eq!(ledger.transfer(&guard, account(1), account(1), 101), Err(Error::InsufficientBalance));
    assert_eq!(ledger.total_supply(), 100);
    assert_eq!(ledger.take_events().len(), 1);
}

#[test]
fn failed_transfer_changes_nothing() {
    let mut guard = HatedStorage::new();
    let mut ledger = funded(account(1), 100);
    assert_eq!(ledger.approve(account(1), account(4), 9), Ok(()));

    assert_eq!(ledger.transfer(&guard, account(1), account(2), 101), Err(Error::InsufficientBalance));
    guard.set_hated_account(account(2));
    assert_eq!(
        ledger.transfer(&guard, account(1), account(2), 1),
        Err(Error::Rejected(String::from("I hate this account!")))
    );

    assert_eq!(ledger.balance_of(&account(1)), 100);
    assert_eq!(ledger.balance_of(&account(2)), 0);
    assert_eq!(ledger.allowance(&account(1), &account(4)), 9);
    assert_eq!(ledger.total_supply(), 100);
    assert!(ledger.take_events().is_empty());
}

#[test]
fn guard_is_heard_before_the_balance() {
    let mut guard = HatedStorage::new();
    guard.set_hated_account(account(2));
    let mut ledger = funded(account(1), 1);
    // Both faults at once: the veto wins.
    assert!(matches!(
        ledger.transfer(&guard, account(1), account(2), 5),
        Err(Error::Rejected(_))
    ));
    assert!(matches!(
        ledger.transfer_from(&guard, account(3), account(1), account(2), 5),
        Err(Error::Rejected(_))
    ));
}

#[test]
fn approve_sets_the_allowance_absolutely() {
    let mut ledger = TokenLedger::new();
    assert_eq!(ledger.approve(account(1), account(2), 10), Ok(()));
    assert_eq!(ledger.approve(account(1), account(2), 4), Ok(()));
    assert_eq!(ledger.allowance(&account(1), &account(2)), 4);
    assert_eq!(ledger.allowance(&account(2), &account(1)), 0);
    assert_eq!(ledger.approve(account(1), account(2), 0), Ok(()));
    assert_eq!(ledger.allowance(&account(1), &account(2)), 0);
    assert_eq!(ledger.approve(account(1), account(2), u128::MAX), Ok(()));
    assert_eq!(ledger.allowance(&account(1), &account(2)), u128::MAX);
    assert_eq!(ledger.total_supply(), 0);
}

#[test]
fn transfer_from_spends_the_allowance() {
    let guard = HatedStorage::new();
    let mut ledger = funded(account(1), 100);
    assert_eq!(ledger.approve(account(1), account(2), 60), Ok(()));

    assert_eq!(ledger.transfer_from(&guard, account(2), account(1), account(3), 25), Ok(()));
    assert_eq!(ledger.allowance(&account(1), &account(2)), 35);
    assert_eq!(ledger.balance_of(&account(1)), 75);
    assert_eq!(ledger.balance_of(&account(2)), 0);
    assert_eq!(ledger.balance_of(&account(3)), 25);
    assert_eq!(
        ledger.take_events(),
        vec![TransferEvent { from: account(1), to: account(3), amount: 25 }]
    );

    assert_eq!(ledger.transfer_from(&guard, account(2), account(1), account(3), 35), Ok(()));
    assert_eq!(ledger.allowance(&account(1), &account(2)), 0);
    assert_eq!(
        ledger.transfer_from(&guard, account(2), account(1), account(3), 1),
        Err(Error::InsufficientAllowance)
    );
}

#[test]
fn transfer_from_tests_allowance_before_balance() {
    let guard = HatedStorage::new();
    let mut ledger = funded(account(1), 10);
    assert_eq!(ledger.approve(account(1), account(2), 20), Ok(()));

    assert_eq!(
        ledger.transfer_from(&guard, account(2), account(1), account(3), 21),
        Err(Error::InsufficientAllowance)
    );
    assert_eq!(
        ledger.transfer_from(&guard, account(2), account(1), account(3), 11),
        Err(Error::InsufficientBalance)
    );
    // Neither failure touched the allowance or a balance.
    assert_eq!(ledger.allowance(&account(1), &account(2)), 20);
    assert_eq!(ledger.balance_of(&account(1)), 10);
    assert_eq!(ledger.balance_of(&account(3)), 0);
    assert!(ledger.take_events().is_empty());
}

#[test]
fn transfer_from_needs_an_allowance_even_for_nothing_more() {
    let guard = HatedStorage::new();
    let mut ledger = funded(account(1), 10);
    assert_eq!(ledger.transfer_from(&guard, account(2), account(1), account(3), 0), Ok(()));
    assert_eq!(
        ledger.transfer_from(&guard, account(1), account(1), account(3), 1),
        Err(Error::InsufficientAllowance)
    );
}

#[test]
fn balances_add_up_to_the_supply() {
    let guard = HatedStorage::new();
    let accounts = [account(1), account(2), account(3), account(4)];
    let mut ledger = TokenLedger::new();
    assert_eq!(sum_of_balances(&ledger, &accounts), ledger.total_supply());

    assert_eq!(ledger.mint(account(1), 1000), Ok(()));
    assert_eq!(ledger.mint(account(2), 1), Ok(()));
    assert_eq!(sum_of_balances(&ledger, &accounts), 1001);
    assert_eq!(ledger.total_supply(), 1001);

    assert_eq!(ledger.transfer(&guard, account(1), account(3), 400), Ok(()));
    assert_eq!(ledger.transfer(&guard, account(3), account(4), 400), Ok(()));
    assert_eq!(ledger.transfer(&guard, account(2), account(4), 2), Err(Error::InsufficientBalance));
    assert_eq!(ledger.approve(account(4), account(1), 100), Ok(()));
    assert_eq!(ledger.transfer_from(&guard, account(1), account(4), account(2), 100), Ok(()));
    assert_eq!(sum_of_balances(&ledger, &accounts), 1001);
    assert_eq!(ledger.total_supply(), 1001);

    assert_eq!(ledger.burn(account(4), 300), Ok(()));
    assert_eq!(ledger.burn(account(2), 101), Ok(()));
    assert_eq!(sum_of_balances(&ledger, &accounts), 600);
    assert_eq!(ledger.total_supply(), 600);
    assert_eq!(
        accounts.map(|a| ledger.balance_of(&a)),
        [600, 0, 0, 0]
    );
}

#[test]
fn many_accounts_keep_their_own_balances() {
    let guard = HatedStorage::new();
    let mut ledger = funded(account(0), 10_000);
    for tag in 1..=100u8 {
        assert_eq!(ledger.transfer(&guard, account(0), account(tag), u128::from(tag)), Ok(()));
    }
    for tag in (1..=100u8).step_by(2) {
        assert_eq!(ledger.transfer(&guard, account(tag), account(0), u128::from(tag)), Ok(()));
    }
    for tag in 1..=100u8 {
        let expected = if tag % 2 == 0 { u128::from(tag) } else { 0 };
        assert_eq!(ledger.balance_of(&account(tag)), expected);
    }
    let kept: u128 = (1..=100u128).filter(|t| t % 2 == 0).sum();
    assert_eq!(ledger.balance_of(&account(0)), 10_000 - kept);
    assert_eq!(ledger.total_supply(), 10_000);
}

#[test]
fn ledger_works_without_a_veto() {
    let mut ledger = funded(account(1), 10);
    let sentinel = Account::sentinel();
    assert_eq!(ledger.transfer(&Unguarded, account(1), sentinel, 4), Ok(()));
    assert_eq!(ledger.approve(sentinel, account(2), 4), Ok(()));
    assert_eq!(ledger.transfer_from(&Unguarded, account(2), sentinel, sentinel, 4), Ok(()));
    assert_eq!(ledger.balance_of(&sentinel), 4);
    assert_eq!(ledger.balance_of(&account(1)), 6);
    assert_eq!(Unguarded.check(&sentinel), Ok(()));
}
