//! A fungible-token contract whose transfers can be vetoed by a guard on the recipient.
//!
//! The ledger keeps balances, allowances and the total supply, and sees to it that the
//! balances always add up to the total supply. Before it moves a token it asks a guard
//! whether the recipient may receive; the guard of this contract refuses one account,
//! the hated one, which anyone may choose.
//!
//! - `account`: account identifiers.
//! - `amounts`: arithmetic on maps from keys to amounts, the model of the tables.
//! - `table`: the executable table of amounts.
//! - `error`: the errors of the guard and of the ledger.
//! - `guard`: the guard interface and the guard that hates one account.
//! - `ledger`: the ledger, as a mathematical model and as executable code.
//! - `contract`: ledger, guard and descriptive data as one state.
//! - `laws`: what holds of every ledger and every contract.

pub mod account;
pub mod amounts;
pub mod contract;
pub mod error;
pub mod guard;
pub mod laws;
pub mod ledger;
pub mod table;

pub use account::Account;
pub use contract::Contract;
pub use error::{Error, GuardError};
pub use guard::{Guard, HatedStorage};
pub use ledger::{TokenLedger, TransferEvent};
