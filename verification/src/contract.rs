//! The token contract: a ledger, the guard that hates one account, and the token's
//! descriptive data, owned together as one state.

use crate::account::Account;
use crate::error::{Error, ErrorView};
use crate::guard::{Guard, HatedStorage};
use crate::ledger::{lemma_mint_wf, LedgerView, TokenLedger, TransferEvent};
use vstd::prelude::*;

verus! {

/// What describes the token to its users; none of it enters the accounting.
#[derive(Debug)]
pub struct Metadata {
    pub name: Option<String>,
    pub symbol: Option<String>,
    pub decimals: u8,
}

/// The descriptive data as a mathematical value.
pub struct MetadataView {
    pub name: Option<Seq<char>>,
    pub symbol: Option<Seq<char>>,
    pub decimals: u8,
}

impl View for Metadata {
    type V = MetadataView;

    open spec fn view(&self) -> MetadataView {
        MetadataView {
            name: match self.name {
                Some(name) => Some(name@),
                None => None,
            },
            symbol: match self.symbol {
                Some(symbol) => Some(symbol@),
                None => None,
            },
            decimals: self.decimals,
        }
    }
}

/// A contract as a mathematical value.
pub struct ContractView {
    pub ledger: LedgerView,
    pub hated_account: Account,
    pub metadata: MetadataView,
}

impl ContractView {
    /// The guard's answer for `candidate`: the hated account is refused, every other
    /// account passes.
    pub open spec fn veto(self, candidate: Account) -> Option<Seq<char>> {
        (HatedStorage { hated_account: self.hated_account }).veto(candidate)
    }

    /// The contract around another state of its ledger.
    pub open spec fn with_ledger(self, outcome: Result<LedgerView, ErrorView>) -> Result<
        ContractView,
        ErrorView,
    > {
        match outcome {
            Ok(ledger) => Ok(ContractView { ledger, ..self }),
            Err(error) => Err(error),
        }
    }

    /// The contract as it stands after its creation by `deployer`: the whole supply
    /// is the deployer's, nothing is allowed or recorded, and the hated account is the
    /// identifier of all `0xFF` bytes.
    pub open spec fn created(
        deployer: Account,
        total_supply: u128,
        name: Seq<char>,
        symbol: Seq<char>,
        decimals: u8,
    ) -> ContractView {
        ContractView {
            ledger: LedgerView {
                total_supply: total_supply as nat,
                ..LedgerView::empty().credited(deployer, total_supply as nat)
            },
            hated_account: Account::filled(0xFF),
            metadata: MetadataView { name: Some(name), symbol: Some(symbol), decimals },
        }
    }

    /// `caller` sends `value` tokens to `to`.
    pub open spec fn transfer(self, caller: Account, to: Account, value: u128) -> Result<
        ContractView,
        ErrorView,
    > {
        self.with_ledger(self.ledger.transfer(self.veto(to), caller, to, value))
    }

    /// `caller` sends `value` tokens of `from` to `to`, against its allowance.
    pub open spec fn transfer_from(
        self,
        caller: Account,
        from: Account,
        to: Account,
        value: u128,
    ) -> Result<ContractView, ErrorView> {
        self.with_ledger(self.ledger.transfer_from(self.veto(to), caller, from, to, value))
    }

    /// `caller` lets `spender` move up to `value` of its tokens.
    pub open spec fn approve(self, caller: Account, spender: Account, value: u128) -> ContractView {
        ContractView { ledger: self.ledger.approve(caller, spender, value), ..self }
    }

    /// `amount` tokens are created for `account`.
    pub open spec fn mint(self, account: Account, amount: u128) -> Result<ContractView, ErrorView> {
        self.with_ledger(self.ledger.mint(account, amount))
    }

    /// `amount` tokens of `account` are destroyed.
    pub open spec fn burn(self, account: Account, amount: u128) -> Result<ContractView, ErrorView> {
        self.with_ledger(self.ledger.burn(account, amount))
    }

    /// `account` becomes the hated one.
    pub open spec fn set_hated_account(self, account: Account) -> ContractView {
        ContractView { hated_account: account, ..self }
    }
}

/// The token contract.
pub struct Contract {
    psp22: TokenLedger,
    hated_storage: HatedStorage,
    metadata: Metadata,
}

impl View for Contract {
    type V = ContractView;

    closed spec fn view(&self) -> ContractView {
        ContractView {
            ledger: self.psp22@,
            hated_account: self.hated_storage.hated_account,
            metadata: self.metadata@,
        }
    }
}

impl Contract {
    /// The contract is in a state that its operations can start from: every contract
    /// that `new` made and the operations changed is.
    pub closed spec fn wf(&self) -> bool {
        self.psp22.wf()
    }

    /// In every such state the invariant of the ledger holds.
    pub proof fn lemma_invariant(&self)
        requires
            self.wf(),
        ensures
            self@.ledger.wf(),
    {
        self.psp22.lemma_invariant();
    }

    /// Creates the contract: `total_supply` tokens, all of them credited to
    /// `deployer`, under the given name, symbol and number of decimals. No account is
    /// refused yet but the one of all `0xFF` bytes.
    pub fn new(
        deployer: Account,
        total_supply: u128,
        name: String,
        symbol: String,
        decimal: u8,
    ) -> (contract: Contract)
        ensures
            contract.wf(),
            contract@ == ContractView::created(deployer, total_supply, name@, symbol@, decimal),
    {
        let mut psp22 = TokenLedger::new();
        proof {
            psp22.lemma_invariant();
            lemma_mint_wf(psp22@, deployer, total_supply);
        }
        let minted = psp22.mint(deployer, total_supply);
        assert(minted is Ok);
        Contract {
            psp22,
            hated_storage: HatedStorage::new(),
            metadata: Metadata { name: Some(name), symbol: Some(symbol), decimals: decimal },
        }
    }

    /// The number of tokens in existence.
    pub fn total_supply(&self) -> (supply: u128)
        ensures
            supply == self@.ledger.total_supply,
    {
        self.psp22.total_supply()
    }

    /// The balance of `account`: zero for an account that never held a token.
    pub fn balance_of(&self, account: Account) -> (balance: u128)
        requires
            self.wf(),
        ensures
            balance == self@.ledger.balance_of(account),
    {
        self.psp22.balance_of(&account)
    }

    /// What `spender` may still move on behalf of `owner`.
    pub fn allowance(&self, owner: Account, spender: Account) -> (allowed: u128)
        requires
            self.wf(),
        ensures
            allowed == self@.ledger.allowance(owner, spender),
    {
        self.psp22.allowance(&owner, &spender)
    }

    /// `caller` sends `value` tokens to `to`. A transfer to the hated account fails
    /// with `Rejected`, whatever the value and whatever `caller` holds; any other
    /// fails with `InsufficientBalance` where `caller` holds less than `value`. A
    /// failed transfer changes nothing.
    pub fn transfer(&mut self, caller: Account, to: Account, value: u128) -> (outcome: Result<
        (),
        Error,
    >)
        requires
            old(self).wf(),
        ensures
            final(self).wf(),
            match outcome {
                Ok(()) => old(self)@.transfer(caller, to, value) == Ok::<ContractView, ErrorView>(
                    final(self)@,
                ),
                Err(error) => old(self)@.transfer(caller, to, value) == Err::<
                    ContractView,
                    ErrorView,
                >(error@) && final(self)@ == old(self)@,
            },
    {
        self.psp22.transfer(&self.hated_storage, caller, to, value)
    }

    /// `caller` sends `value` tokens of `from` to `to`. A transfer to the hated
    /// account fails with `Rejected`; any other fails with `InsufficientAllowance`
    /// where `caller` may move less than `value` for `from`, and with
    /// `InsufficientBalance` where `from` holds less. A failed transfer changes
    /// nothing.
    pub fn transfer_from(
        &mut self,
        caller: Account,
        from: Account,
        to: Account,
        value: u128,
    ) -> (outcome: Result<(), Error>)
        requires
            old(self).wf(),
        ensures
            final(self).wf(),
            match outcome {
                Ok(()) => old(self)@.transfer_from(caller, from, to, value) == Ok::<
                    ContractView,
                    ErrorView,
                >(final(self)@),
                Err(error) => old(self)@.transfer_from(caller, from, to, value) == Err::<
                    ContractView,
                    ErrorView,
                >(error@) && final(self)@ == old(self)@,
            },
    {
        self.psp22.transfer_from(&self.hated_storage, caller, from, to, value)
    }

    /// `caller` lets `spender` move up to `value` of its tokens, in place of what it
    /// allowed before. Always succeeds.
    pub fn approve(&mut self, caller: Account, spender: Account, value: u128) -> (outcome: Result<
        (),
        Error,
    >)
        requires
            old(self).wf(),
        ensures
            final(self).wf(),
            outcome is Ok,
            final(self)@ == old(self)@.approve(caller, spender, value),
    {
        self.psp22.approve(caller, spender, value)
    }

    /// Creates `amount` tokens for `account`; the guard is not heard. Fails with
    /// `Overflow`, and changes nothing, exactly where the total supply would leave the
    /// range of the amounts.
    pub fn mint(&mut self, account: Account, amount: u128) -> (outcome: Result<(), Error>)
        requires
            old(self).wf(),
        ensures
            final(self).wf(),
            match outcome {
                Ok(()) => old(self)@.mint(account, amount) == Ok::<ContractView, ErrorView>(
                    final(self)@,
                ),
                Err(error) => old(self)@.mint(account, amount) == Err::<ContractView, ErrorView>(
                    error@,
                ) && final(self)@ == old(self)@,
            },
    {
        self.psp22.mint(account, amount)
    }

    /// Destroys `amount` tokens of `account`. Fails with `InsufficientBalance`, and
    /// changes nothing, exactly where `account` holds less than `amount`.
    pub fn burn(&mut self, account: Account, amount: u128) -> (outcome: Result<(), Error>)
        requires
            old(self).wf(),
        ensures
            final(self).wf(),
            match outcome {
                Ok(()) => old(self)@.burn(account, amount) == Ok::<ContractView, ErrorView>(
                    final(self)@,
                ),
                Err(error) => old(self)@.burn(account, amount) == Err::<ContractView, ErrorView>(
                    error@,
                ) && final(self)@ == old(self)@,
            },
    {
        self.psp22.burn(account, amount)
    }

    /// The account that is refused at present.
    pub fn get_hated_account(&self) -> (account: Account)
        ensures
            account == self@.hated_account,
    {
        self.hated_storage.get_hated_account()
    }

    /// Makes `account` the hated one. Nothing is asked of the caller: anyone may
    /// change the hated account, and nothing else changes with it.
    pub fn set_hated_account(&mut self, account: Account)
        requires
            old(self).wf(),
        ensures
            final(self).wf(),
            final(self)@ == old(self)@.set_hated_account(account),
    {
        self.hated_storage.set_hated_account(account);
    }

    /// The token's name.
    pub fn token_name(&self) -> (name: Option<String>)
        ensures
            match name {
                Some(name) => self@.metadata.name == Some(name@),
                None => self@.metadata.name is None,
            },
    {
        match &self.metadata.name {
            Some(name) => Some(name.clone()),
            None => None,
        }
    }

    /// The token's symbol.
    pub fn token_symbol(&self) -> (symbol: Option<String>)
        ensures
            match symbol {
                Some(symbol) => self@.metadata.symbol == Some(symbol@),
                None => self@.metadata.symbol is None,
            },
    {
        match &self.metadata.symbol {
            Some(symbol) => Some(symbol.clone()),
            None => None,
        }
    }

    /// The number of decimals in which amounts are shown.
    pub fn token_decimals(&self) -> (decimals: u8)
        ensures
            decimals == self@.metadata.decimals,
    {
        self.metadata.decimals
    }

    /// Hands out the recorded transfers, oldest first, and clears the record.
    pub fn take_events(&mut self) -> (events: Vec<TransferEvent>)
        requires
            old(self).wf(),
        ensures
            final(self).wf(),
            events@ == old(self)@.ledger.events,
            final(self)@ == (ContractView { ledger: old(self)@.ledger.drained(), ..old(self)@ }),
    {
        self.psp22.take_events()
    }
}

} // verus!
