//! The token ledger: balances, allowances, the total supply and the record of
//! transfers, with the rule that the balances always add up to the total supply.

use crate::account::Account;
use crate::amounts::{
    amount_at, lemma_amount_le_total, lemma_total_with_amount, lemma_two_amounts_le_total,
    lemma_with_amount_normal, normal, total, with_amount,
};
use crate::error::{Error, ErrorView};
use crate::guard::Guard;
use crate::table::Table;
use vstd::prelude::*;

verus! {

/// The record of one transfer, kept for outside observers.
#[derive(Clone, Copy, Debug, PartialEq, Eq)]
pub struct TransferEvent {
    pub from: Account,
    pub to: Account,
    pub amount: u128,
}

/// A ledger as a mathematical value.
pub struct LedgerView {
    /// The balance of every account that holds tokens.
    pub balances: Map<Account, nat>,
    /// What each spender may still move on each owner's behalf, by (owner, spender).
    pub allowances: Map<(Account, Account), nat>,
    /// The number of tokens in existence.
    pub total_supply: nat,
    /// The transfers recorded and not yet handed out, oldest first.
    pub events: Seq<TransferEvent>,
}

impl LedgerView {
    /// The ledger without tokens, allowances or records.
    pub open spec fn empty() -> LedgerView {
        LedgerView {
            balances: Map::empty(),
            allowances: Map::empty(),
            total_supply: 0,
            events: Seq::empty(),
        }
    }

    /// The balance of `account`: zero for an account that the ledger does not know.
    pub open spec fn balance_of(self, account: Account) -> nat {
        amount_at(self.balances, account)
    }

    /// What `spender` may still move on behalf of `owner`.
    pub open spec fn allowance(self, owner: Account, spender: Account) -> nat {
        amount_at(self.allowances, (owner, spender))
    }

    /// The invariant of every ledger: both tables are in normal form, the balances add
    /// up to the total supply, and every stored amount fits the machine type.
    pub open spec fn wf(self) -> bool {
        &&& normal(self.balances)
        &&& normal(self.allowances)
        &&& total(self.balances) == self.total_supply
        &&& self.total_supply <= u128::MAX
        &&& forall|owner: Account, spender: Account| #[trigger]
            self.allowance(owner, spender) <= u128::MAX
    }

    /// The ledger with the balance of `account` raised by `amount`.
    pub open spec fn credited(self, account: Account, amount: nat) -> LedgerView {
        LedgerView {
            balances: with_amount(self.balances, account, self.balance_of(account) + amount),
            ..self
        }
    }

    /// The ledger with the balance of `account` lowered by `amount`.
    pub open spec fn debited(self, account: Account, amount: nat) -> LedgerView
        recommends
            self.balance_of(account) >= amount,
    {
        LedgerView {
            balances: with_amount(
                self.balances,
                account,
                (self.balance_of(account) - amount) as nat,
            ),
            ..self
        }
    }

    /// The ledger with one more record at the end of its events.
    pub open spec fn recorded(self, event: TransferEvent) -> LedgerView {
        LedgerView { events: self.events.push(event), ..self }
    }

    /// Creating `amount` tokens for `to`: fails only where the total supply would leave
    /// the range of the amounts.
    pub open spec fn mint(self, to: Account, amount: u128) -> Result<LedgerView, ErrorView> {
        if self.total_supply + amount > u128::MAX {
            Err(ErrorView::Overflow)
        } else {
            Ok(
                LedgerView {
                    total_supply: self.total_supply + amount as nat,
                    ..self.credited(to, amount as nat)
                },
            )
        }
    }

    /// Destroying `amount` tokens of `from`: fails where `from` holds less.
    pub open spec fn burn(self, from: Account, amount: u128) -> Result<LedgerView, ErrorView> {
        if self.balance_of(from) < amount {
            Err(ErrorView::InsufficientBalance)
        } else {
            Ok(
                LedgerView {
                    total_supply: (self.total_supply - amount) as nat,
                    ..self.debited(from, amount as nat)
                },
            )
        }
    }

    /// Moving `amount` tokens from `from` to `to`, where `veto` is the guard's answer
    /// for `to`. The guard is heard first, then the balance is tested; a transfer that
    /// passes both is applied and recorded, whatever its amount.
    pub open spec fn transfer(
        self,
        veto: Option<Seq<char>>,
        from: Account,
        to: Account,
        amount: u128,
    ) -> Result<LedgerView, ErrorView> {
        if let Some(reason) = veto {
            Err(ErrorView::Rejected(reason))
        } else if self.balance_of(from) < amount {
            Err(ErrorView::InsufficientBalance)
        } else {
            Ok(
                self.debited(from, amount as nat).credited(to, amount as nat).recorded(
                    TransferEvent { from, to, amount },
                ),
            )
        }
    }

    /// Setting what `spender` may move on behalf of `owner` to `amount`, in place of
    /// what was allowed before.
    pub open spec fn approve(self, owner: Account, spender: Account, amount: u128) -> LedgerView {
        LedgerView {
            allowances: with_amount(self.allowances, (owner, spender), amount as nat),
            ..self
        }
    }

    /// Moving `amount` tokens of `owner` to `to` at the request of `spender`. The guard
    /// is heard first, then the allowance is tested, then the balance; a transfer that
    /// passes all three lowers the allowance by `amount` and is applied and recorded
    /// like any other.
    pub open spec fn transfer_from(
        self,
        veto: Option<Seq<char>>,
        spender: Account,
        owner: Account,
        to: Account,
        amount: u128,
    ) -> Result<LedgerView, ErrorView> {
        if let Some(reason) = veto {
            Err(ErrorView::Rejected(reason))
        } else if self.allowance(owner, spender) < amount {
            Err(ErrorView::InsufficientAllowance)
        } else {
            self.approve(
                owner,
                spender,
                (self.allowance(owner, spender) - amount) as u128,
            ).transfer(None, owner, to, amount)
        }
    }

    /// The ledger after its events were handed out.
    pub open spec fn drained(self) -> LedgerView {
        LedgerView { events: Seq::empty(), ..self }
    }
}

/// Creating tokens keeps the invariant, and the balance that is raised stays in range.
pub proof fn lemma_mint_wf(ledger: LedgerView, to: Account, amount: u128)
    requires
        ledger.wf(),
        ledger.total_supply + amount <= u128::MAX,
    ensures
        ledger.mint(to, amount) is Ok,
        ledger.mint(to, amount)->Ok_0.wf(),
        ledger.balance_of(to) + amount <= u128::MAX,
{
    lemma_amount_le_total(ledger.balances, to);
    let raised = (ledger.balance_of(to) + amount) as nat;
    lemma_total_with_amount(ledger.balances, to, raised);
    lemma_with_amount_normal(ledger.balances, to, raised);
    let after = ledger.mint(to, amount)->Ok_0;
    assert forall|owner: Account, spender: Account| #[trigger]
        after.allowance(owner, spender) <= u128::MAX by {
        assert(after.allowance(owner, spender) == ledger.allowance(owner, spender));
    }
}

/// Destroying tokens keeps the invariant, and the total supply covers what is destroyed.
pub proof fn lemma_burn_wf(ledger: LedgerView, from: Account, amount: u128)
    requires
        ledger.wf(),
        ledger.balance_of(from) >= amount,
    ensures
        ledger.burn(from, amount) is Ok,
        ledger.burn(from, amount)->Ok_0.wf(),
        ledger.total_supply >= amount,
{
    lemma_amount_le_total(ledger.balances, from);
    let lowered = (ledger.balance_of(from) - amount) as nat;
    lemma_total_with_amount(ledger.balances, from, lowered);
    lemma_with_amount_normal(ledger.balances, from, lowered);
    let after = ledger.burn(from, amount)->Ok_0;
    assert forall|owner: Account, spender: Account| #[trigger]
        after.allowance(owner, spender) <= u128::MAX by {
        assert(after.allowance(owner, spender) == ledger.allowance(owner, spender));
    }
}

/// A transfer that the guard lets pass and the balance covers keeps the invariant and
/// the total supply, and the balance that it raises stays in range.
pub proof fn lemma_transfer_wf(ledger: LedgerView, from: Account, to: Account, amount: u128)
    requires
        ledger.wf(),
        ledger.balance_of(from) >= amount,
    ensures
        ledger.transfer(None, from, to, amount) is Ok,
        ledger.transfer(None, from, to, amount)->Ok_0.wf(),
        ledger.transfer(None, from, to, amount)->Ok_0.total_supply == ledger.total_supply,
        ledger.debited(from, amount as nat).balance_of(to) + amount <= u128::MAX,
{
    let lowered = (ledger.balance_of(from) - amount) as nat;
    lemma_total_with_amount(ledger.balances, from, lowered);
    lemma_with_amount_normal(ledger.balances, from, lowered);
    let debited = ledger.debited(from, amount as nat);
    lemma_amount_le_total(debited.balances, to);
    let raised = (debited.balance_of(to) + amount) as nat;
    lemma_total_with_amount(debited.balances, to, raised);
    lemma_with_amount_normal(debited.balances, to, raised);
    let after = ledger.transfer(None, from, to, amount)->Ok_0;
    assert forall|owner: Account, spender: Account| #[trigger]
        after.allowance(owner, spender) <= u128::MAX by {
        assert(after.allowance(owner, spender) == ledger.allowance(owner, spender));
    }
}

/// Setting an allowance keeps the invariant and touches neither a balance nor the
/// total supply.
pub proof fn lemma_approve_wf(ledger: LedgerView, owner: Account, spender: Account, amount: u128)
    requires
        ledger.wf(),
    ensures
        ledger.approve(owner, spender, amount).wf(),
        ledger.approve(owner, spender, amount).balances == ledger.balances,
        ledger.approve(owner, spender, amount).total_supply == ledger.total_supply,
{
    lemma_with_amount_normal(ledger.allowances, (owner, spender), amount as nat);
    let after = ledger.approve(owner, spender, amount);
    assert forall|o: Account, s: Account| #[trigger] after.allowance(o, s) <= u128::MAX by {
        if (o, s) != (owner, spender) {
            assert(after.allowance(o, s) == ledger.allowance(o, s));
        }
    }
}

/// The token ledger.
pub struct TokenLedger {
    balances: Table<Account>,
    allowances: Table<(Account, Account)>,
    supply: u128,
    events: Vec<TransferEvent>,
}

impl View for TokenLedger {
    type V = LedgerView;

    closed spec fn view(&self) -> LedgerView {
        LedgerView {
            balances: self.balances@,
            allowances: self.allowances@,
            total_supply: self.supply as nat,
            events: self.events@,
        }
    }
}

impl TokenLedger {
    /// The ledger is in a state that its operations can start from: every ledger that
    /// `new` made and the operations changed is.
    pub closed spec fn wf(&self) -> bool {
        &&& self.balances.wf()
        &&& self.allowances.wf()
        &&& total(self.balances@) == self.supply
    }

    /// In every such state the invariant of the ledger holds; in particular the
    /// balances add up to the total supply.
    pub proof fn lemma_invariant(&self)
        requires
            self.wf(),
        ensures
            self@.wf(),
            total(self@.balances) == self@.total_supply,
    {
        self.balances.lemma_view_normal();
        self.allowances.lemma_view_normal();
        assert forall|owner: Account, spender: Account| #[trigger]
            self@.allowance(owner, spender) <= u128::MAX by {
            assert(amount_at(self.allowances@, (owner, spender)) <= u128::MAX);
        }
    }

    /// The empty ledger.
    pub fn new() -> (ledger: TokenLedger)
        ensures
            ledger.wf(),
            ledger@ == LedgerView::empty(),
    {
        let ledger = TokenLedger {
            balances: Table::new(),
            allowances: Table::new(),
            supply: 0,
            events: Vec::new(),
        };
        proof {
            crate::amounts::lemma_total_empty::<Account>();
        }
        ledger
    }

    /// The number of tokens in existence.
    pub fn total_supply(&self) -> (supply: u128)
        ensures
            supply == self@.total_supply,
    {
        self.supply
    }

    /// The balance of `account`: zero for an account that the ledger does not know.
    pub fn balance_of(&self, account: &Account) -> (balance: u128)
        requires
            self.wf(),
        ensures
            balance == self@.balance_of(*account),
    {
        self.balances.get(account)
    }

    /// What `spender` may still move on behalf of `owner`.
    pub fn allowance(&self, owner: &Account, spender: &Account) -> (allowed: u128)
        requires
            self.wf(),
        ensures
            allowed == self@.allowance(*owner, *spender),
    {
        self.allowances.get(&(*owner, *spender))
    }

    /// Creates `amount` tokens and credits them to `to`. The guard is not heard: to
    /// create tokens is not to transfer them. Fails with `Overflow`, and changes
    /// nothing, exactly where the total supply would leave the range of the amounts.
    pub fn mint(&mut self, to: Account, amount: u128) -> (outcome: Result<(), Error>)
        requires
            old(self).wf(),
        ensures
            final(self).wf(),
            match outcome {
                Ok(()) => old(self)@.mint(to, amount) == Ok::<LedgerView, ErrorView>(
                    final(self)@,
                ),
                Err(error) => old(self)@.mint(to, amount) == Err::<LedgerView, ErrorView>(error@)
                    && final(self)@ == old(self)@,
            },
    {
        proof {
            self.lemma_invariant();
        }
        if amount > u128::MAX - self.supply {
            return Err(Error::Overflow);
        }
        proof {
            lemma_mint_wf(self@, to, amount);
        }
        let balance = self.balances.get(&to);
        self.balances.set(to, balance + amount);
        self.supply = self.supply + amount;
        Ok(())
    }

    /// Destroys `amount` tokens of `from`. Fails with `InsufficientBalance`, and
    /// changes nothing, exactly where `from` holds less than `amount`.
    pub fn burn(&mut self, from: Account, amount: u128) -> (outcome: Result<(), Error>)
        requires
            old(self).wf(),
        ensures
            final(self).wf(),
            match outcome {
                Ok(()) => old(self)@.burn(from, amount) == Ok::<LedgerView, ErrorView>(
                    final(self)@,
                ),
                Err(error) => old(self)@.burn(from, amount) == Err::<LedgerView, ErrorView>(
                    error@,
                ) && final(self)@ == old(self)@,
            },
    {
        proof {
            self.lemma_invariant();
        }
        let balance = self.balances.get(&from);
        if balance < amount {
            return Err(Error::InsufficientBalance);
        }
        proof {
            lemma_burn_wf(self@, from, amount);
        }
        self.balances.set(from, balance - amount);
        self.supply = self.supply - amount;
        Ok(())
    }

    /// Moves `amount` tokens from `from` to `to` and records the transfer, once the
    /// guard and the allowance, if any, have been dealt with.
    fn move_tokens(&mut self, from: Account, to: Account, amount: u128)
        requires
            old(self).wf(),
            old(self)@.balance_of(from) >= amount,
        ensures
            final(self).wf(),
            old(self)@.transfer(None, from, to, amount) == Ok::<LedgerView, ErrorView>(
                final(self)@,
            ),
    {
        proof {
            self.lemma_invariant();
            lemma_transfer_wf(self@, from, to, amount);
        }
        let from_balance = self.balances.get(&from);
        self.balances.set(from, from_balance - amount);
        let to_balance = self.balances.get(&to);
        self.balances.set(to, to_balance + amount);
        self.events.push(TransferEvent { from, to, amount });
    }

    /// Moves `amount` tokens from `from` to `to`.
    ///
    /// The guard is asked about `to` before anything else, whatever the amount and
    /// whatever `from` holds; where it refuses, the transfer fails with `Rejected` and
    /// the guard's reason. Otherwise the transfer fails with `InsufficientBalance`
    /// where `from` holds less than `amount`. Otherwise both balances change, the total
    /// supply stays, and the transfer is recorded, also where the amount is zero. A
    /// failed transfer changes nothing.
    pub fn transfer<G: Guard>(
        &mut self,
        guard: &G,
        from: Account,
        to: Account,
        amount: u128,
    ) -> (outcome: Result<(), Error>)
        requires
            old(self).wf(),
        ensures
            final(self).wf(),
            match outcome {
                Ok(()) => old(self)@.transfer(guard.veto(to), from, to, amount) == Ok::<
                    LedgerView,
                    ErrorView,
                >(final(self)@),
                Err(error) => old(self)@.transfer(guard.veto(to), from, to, amount) == Err::<
                    LedgerView,
                    ErrorView,
                >(error@) && final(self)@ == old(self)@,
            },
    {
        if let Err(refusal) = guard.check(&to) {
            return Err(Error::from_guard(refusal));
        }
        if self.balances.get(&from) < amount {
            return Err(Error::InsufficientBalance);
        }
        self.move_tokens(from, to, amount);
        Ok(())
    }

    /// Sets what `spender` may move on behalf of `owner` to `amount`, in place of what
    /// was allowed before. Always succeeds.
    pub fn approve(
        &mut self,
        owner: Account,
        spender: Account,
        amount: u128,
    ) -> (outcome: Result<(), Error>)
        requires
            old(self).wf(),
        ensures
            final(self).wf(),
            outcome is Ok,
            final(self)@ == old(self)@.approve(owner, spender, amount),
    {
        self.allowances.set((owner, spender), amount);
        Ok(())
    }

    /// Moves `amount` tokens of `owner` to `to` at the request of `spender`.
    ///
    /// The guard is asked about `to` first, as in `transfer`. Then the transfer fails
    /// with `InsufficientAllowance` where `spender` may move less than `amount` for
    /// `owner`, and with `InsufficientBalance` where `owner` holds less. Otherwise the
    /// allowance falls by `amount` and the tokens move as in `transfer`. A failed
    /// transfer changes nothing, the allowance included.
    pub fn transfer_from<G: Guard>(
        &mut self,
        guard: &G,
        spender: Account,
        owner: Account,
        to: Account,
        amount: u128,
    ) -> (outcome: Result<(), Error>)
        requires
            old(self).wf(),
        ensures
            final(self).wf(),
            match outcome {
                Ok(()) => old(self)@.transfer_from(guard.veto(to), spender, owner, to, amount)
                    == Ok::<LedgerView, ErrorView>(final(self)@),
                Err(error) => old(self)@.transfer_from(guard.veto(to), spender, owner, to, amount)
                    == Err::<LedgerView, ErrorView>(error@) && final(self)@ == old(self)@,
            },
    {
        if let Err(refusal) = guard.check(&to) {
            return Err(Error::from_guard(refusal));
        }
        let allowed = self.allowances.get(&(owner, spender));
        if allowed < amount {
            return Err(Error::InsufficientAllowance);
        }
        if self.balances.get(&owner) < amount {
            return Err(Error::InsufficientBalance);
        }
        self.allowances.set((owner, spender), allowed - amount);
        self.move_tokens(owner, to, amount);
        Ok(())
    }

    /// Hands out the recorded transfers, oldest first, and clears the record.
    pub fn take_events(&mut self) -> (events: Vec<TransferEvent>)
        requires
            old(self).wf(),
        ensures
            final(self).wf(),
            events@ == old(self)@.events,
            final(self)@ == old(self)@.drained(),
    {
        let mut events: Vec<TransferEvent> = Vec::new();
        std::mem::swap(&mut self.events, &mut events);
        events
    }
}

} // verus!
