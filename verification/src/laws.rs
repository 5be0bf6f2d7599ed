//! Laws of the ledger and of the contract, proved over their mathematical models.

use crate::account::Account;
use crate::amounts::{lemma_amount_le_total, lemma_two_amounts_le_total, total};
use crate::contract::ContractView;
use crate::error::ErrorView;
use crate::guard::{hated_reason, Guard};
use crate::ledger::{lemma_approve_wf, lemma_transfer_wf, LedgerView, TransferEvent};
use vstd::prelude::*;

verus! {

/// No account holds more than the total supply, and no two accounts together do.
pub proof fn lemma_balances_within_supply(ledger: LedgerView, first: Account, second: Account)
    requires
        ledger.wf(),
    ensures
        ledger.balance_of(first) <= ledger.total_supply,
        first != second ==> ledger.balance_of(first) + ledger.balance_of(second)
            <= ledger.total_supply,
{
    lemma_amount_le_total(ledger.balances, first);
    if first != second {
        lemma_two_amounts_le_total(ledger.balances, first, second);
    }
}

/// A transfer between two different accounts lowers the sender's balance by the
/// amount, raises the recipient's by the amount, and leaves every other balance, the
/// allowances and the total supply as they were.
pub proof fn lemma_transfer_moves_amount(
    ledger: LedgerView,
    from: Account,
    to: Account,
    amount: u128,
)
    requires
        ledger.wf(),
        ledger.balance_of(from) >= amount,
        from != to,
    ensures
        ledger.transfer(None, from, to, amount) matches Ok(after) && {
            &&& after.balance_of(from) == ledger.balance_of(from) - amount
            &&& after.balance_of(to) == ledger.balance_of(to) + amount
            &&& forall|other: Account|
                other != from && other != to ==> #[trigger] after.balance_of(other)
                    == ledger.balance_of(other)
            &&& after.allowances == ledger.allowances
            &&& after.total_supply == ledger.total_supply
            &&& after.events == ledger.events.push(TransferEvent { from, to, amount })
        },
{
}

/// A transfer from an account to itself, and a transfer of nothing, leave every
/// balance as it was; they are recorded all the same.
pub proof fn lemma_transfer_without_effect(
    ledger: LedgerView,
    from: Account,
    to: Account,
    amount: u128,
)
    requires
        ledger.wf(),
        ledger.balance_of(from) >= amount,
        from == to || amount == 0,
    ensures
        ledger.transfer(None, from, to, amount) == Ok::<LedgerView, ErrorView>(
            ledger.recorded(TransferEvent { from, to, amount }),
        ),
{
    let after = ledger.transfer(None, from, to, amount)->Ok_0;
    assert(after.balances =~= ledger.balances);
}

/// Round trip: where the guard refuses neither account and the first holds the
/// amount, a transfer from the first to the second and then the same amount back both
/// succeed and restore every balance and the total supply.
pub proof fn lemma_transfer_round_trip<G: Guard>(
    ledger: LedgerView,
    guard: G,
    first: Account,
    second: Account,
    amount: u128,
)
    requires
        ledger.wf(),
        guard.veto(first) is None,
        guard.veto(second) is None,
        ledger.balance_of(first) >= amount,
    ensures
        ledger.transfer(guard.veto(second), first, second, amount) matches Ok(there)
            && there.transfer(guard.veto(first), second, first, amount) matches Ok(back) && {
            &&& back.balances == ledger.balances
            &&& back.allowances == ledger.allowances
            &&& back.total_supply == ledger.total_supply
        },
{
    lemma_transfer_wf(ledger, first, second, amount);
    let there = ledger.transfer(None, first, second, amount)->Ok_0;
    let back = there.transfer(None, second, first, amount)->Ok_0;
    assert(back.balances =~= ledger.balances);
}

/// Whatever the guard refuses is refused before anything else is looked at: the
/// transfer fails with `Rejected` and the guard's reason, for every sender, every
/// amount and every state of the ledger.
pub proof fn lemma_veto_rejects<G: Guard>(
    ledger: LedgerView,
    guard: G,
    spender: Account,
    from: Account,
    to: Account,
    amount: u128,
)
    requires
        guard.veto(to) is Some,
    ensures
        ledger.transfer(guard.veto(to), from, to, amount) == Err::<LedgerView, ErrorView>(
            ErrorView::Rejected(guard.veto(to)->Some_0),
        ),
        ledger.transfer_from(guard.veto(to), spender, from, to, amount) == Err::<
            LedgerView,
            ErrorView,
        >(ErrorView::Rejected(guard.veto(to)->Some_0)),
{
}

/// A transfer to the hated account always fails with `Rejected`, whoever sends,
/// whatever the amount, zero included, and whatever the sender holds.
pub proof fn lemma_hated_account_rejected(contract: ContractView, caller: Account, value: u128)
    ensures
        contract.transfer(caller, contract.hated_account, value) == Err::<
            ContractView,
            ErrorView,
        >(ErrorView::Rejected(hated_reason())),
{
}

/// A transfer to any account but the hated one is decided by the sender's balance
/// alone.
pub proof fn lemma_other_accounts_pass(
    contract: ContractView,
    caller: Account,
    to: Account,
    value: u128,
)
    requires
        to != contract.hated_account,
    ensures
        contract.transfer(caller, to, value) is Ok <==> contract.ledger.balance_of(caller)
            >= value,
        contract.transfer(caller, to, value) is Err ==> contract.transfer(caller, to, value)
            == Err::<ContractView, ErrorView>(ErrorView::InsufficientBalance),
{
}

/// A transfer against an allowance that passes the guard, the allowance and the
/// balance keeps the invariant of the ledger, lowers the allowance by the amount, and
/// moves the tokens as a plain transfer from the owner does.
pub proof fn lemma_transfer_from_wf(
    ledger: LedgerView,
    spender: Account,
    owner: Account,
    to: Account,
    amount: u128,
)
    requires
        ledger.wf(),
        ledger.allowance(owner, spender) >= amount,
        ledger.balance_of(owner) >= amount,
    ensures
        ledger.transfer_from(None, spender, owner, to, amount) matches Ok(after) && {
            &&& after.wf()
            &&& after.allowance(owner, spender) == ledger.allowance(owner, spender) - amount
            &&& after.balances == ledger.transfer(None, owner, to, amount)->Ok_0.balances
            &&& after.total_supply == ledger.total_supply
        },
{
    let lowered = (ledger.allowance(owner, spender) - amount) as u128;
    lemma_approve_wf(ledger, owner, spender, lowered);
    lemma_transfer_wf(ledger.approve(owner, spender, lowered), owner, to, amount);
}

/// Conservation: every operation on the ledger, whether it succeeds or fails, leads
/// from a state in which the balances add up to the total supply to another such
/// state.
pub proof fn lemma_conservation(
    ledger: LedgerView,
    veto: Option<Seq<char>>,
    spender: Account,
    from: Account,
    to: Account,
    amount: u128,
)
    requires
        ledger.wf(),
    ensures
        ledger.mint(to, amount) matches Ok(after) ==> after.wf() && total(after.balances)
            == after.total_supply,
        ledger.burn(from, amount) matches Ok(after) ==> after.wf() && total(after.balances)
            == after.total_supply,
        ledger.transfer(veto, from, to, amount) matches Ok(after) ==> after.wf() && total(
            after.balances,
        ) == after.total_supply,
        ledger.transfer_from(veto, spender, from, to, amount) matches Ok(after) ==> after.wf()
            && total(after.balances) == after.total_supply,
        ledger.approve(from, spender, amount).wf(),
        ledger.drained().wf(),
{
    if ledger.mint(to, amount) is Ok {
        crate::ledger::lemma_mint_wf(ledger, to, amount);
    }
    if ledger.burn(from, amount) is Ok {
        crate::ledger::lemma_burn_wf(ledger, from, amount);
    }
    if ledger.transfer(veto, from, to, amount) is Ok {
        lemma_transfer_wf(ledger, from, to, amount);
    }
    if ledger.transfer_from(veto, spender, from, to, amount) is Ok {
        lemma_transfer_from_wf(ledger, spender, from, to, amount);
    }
    lemma_approve_wf(ledger, from, spender, amount);
    assert forall|o: Account, s: Account| #[trigger]
        ledger.drained().allowance(o, s) <= u128::MAX by {
        assert(ledger.drained().allowance(o, s) == ledger.allowance(o, s));
    }
}

/// Only creating and destroying tokens changes the total supply, each by its amount;
/// transfers and allowances leave it as it is.
pub proof fn lemma_supply_changes(
    ledger: LedgerView,
    veto: Option<Seq<char>>,
    spender: Account,
    from: Account,
    to: Account,
    amount: u128,
)
    requires
        ledger.wf(),
    ensures
        ledger.mint(to, amount) matches Ok(after) ==> after.total_supply == ledger.total_supply
            + amount && after.balance_of(to) == ledger.balance_of(to) + amount,
        ledger.burn(from, amount) matches Ok(after) ==> after.total_supply == ledger.total_supply
            - amount && after.balance_of(from) == ledger.balance_of(from) - amount,
        ledger.transfer(veto, from, to, amount) matches Ok(after) ==> after.total_supply
            == ledger.total_supply,
        ledger.transfer_from(veto, spender, from, to, amount) matches Ok(after)
            ==> after.total_supply == ledger.total_supply,
        ledger.approve(from, spender, amount).total_supply == ledger.total_supply,
{
    if ledger.burn(from, amount) is Ok {
        crate::ledger::lemma_burn_wf(ledger, from, amount);
    }
}

/// Round trip on the contract: where neither account is the hated one and the first
/// holds the amount, sending it to the second and back succeeds both times and
/// restores every balance; nothing else but the record of transfers has changed.
pub proof fn lemma_contract_round_trip(
    contract: ContractView,
    first: Account,
    second: Account,
    amount: u128,
)
    requires
        contract.ledger.wf(),
        first != contract.hated_account,
        second != contract.hated_account,
        contract.ledger.balance_of(first) >= amount,
    ensures
        contract.transfer(first, second, amount) matches Ok(there) && there.transfer(
            second,
            first,
            amount,
        ) matches Ok(back) && {
            &&& back.ledger.balances == contract.ledger.balances
            &&& back.ledger.allowances == contract.ledger.allowances
            &&& back.ledger.total_supply == contract.ledger.total_supply
            &&& back.hated_account == contract.hated_account
            &&& back.metadata == contract.metadata
        },
{
    let guard = crate::guard::HatedStorage { hated_account: contract.hated_account };
    lemma_transfer_round_trip(contract.ledger, guard, first, second, amount);
}

/// Conservation on the contract: whatever operation is applied to a contract whose
/// balances add up to its total supply, they still do afterwards.
pub proof fn lemma_contract_conservation(
    contract: ContractView,
    caller: Account,
    from: Account,
    to: Account,
    amount: u128,
)
    requires
        contract.ledger.wf(),
    ensures
        contract.mint(to, amount) matches Ok(after) ==> after.ledger.wf(),
        contract.burn(from, amount) matches Ok(after) ==> after.ledger.wf(),
        contract.transfer(caller, to, amount) matches Ok(after) ==> after.ledger.wf(),
        contract.transfer_from(caller, from, to, amount) matches Ok(after) ==> after.ledger.wf(),
        contract.approve(caller, to, amount).ledger.wf(),
        contract.set_hated_account(to).ledger.wf(),
{
    lemma_conservation(contract.ledger, contract.veto(to), caller, from, to, amount);
    lemma_conservation(contract.ledger, contract.veto(to), caller, caller, to, amount);
    lemma_approve_wf(contract.ledger, caller, to, amount);
}

} // verus!
