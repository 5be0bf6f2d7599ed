//! The errors that the guard and the ledger report.

use vstd::prelude::*;

verus! {

/// What a transfer guard answers when it refuses a recipient.
#[derive(Debug, PartialEq, Eq)]
pub enum GuardError {
    /// The recipient is refused, for the reason given.
    Rejected(String),
}

impl GuardError {
    /// The reason that comes with the refusal.
    pub open spec fn reason(&self) -> Seq<char> {
        match self {
            GuardError::Rejected(reason) => reason@,
        }
    }
}

/// Why a ledger operation failed. A failed operation leaves the ledger as it was.
#[derive(Debug, PartialEq, Eq)]
pub enum Error {
    /// The account to be debited holds less than the amount.
    InsufficientBalance,
    /// The spender may move less than the amount on the owner's behalf.
    InsufficientAllowance,
    /// The total supply would leave the range of the amounts.
    Overflow,
    /// The transfer guard refused the recipient, for the reason given.
    Rejected(String),
    /// A restriction outside the ledger's own rules, described by its message.
    Custom(String),
}

/// An error as a mathematical value: messages are sequences of characters.
pub enum ErrorView {
    InsufficientBalance,
    InsufficientAllowance,
    Overflow,
    Rejected(Seq<char>),
    Custom(Seq<char>),
}

impl ErrorView {
    /// The same error in the general form: a refusal by the guard becomes `Custom`
    /// with the guard's reason as its message, and every other error stays as it is.
    pub open spec fn generalized(self) -> ErrorView {
        match self {
            ErrorView::Rejected(reason) => ErrorView::Custom(reason),
            other => other,
        }
    }
}

impl View for Error {
    type V = ErrorView;

    open spec fn view(&self) -> ErrorView {
        match self {
            Error::InsufficientBalance => ErrorView::InsufficientBalance,
            Error::InsufficientAllowance => ErrorView::InsufficientAllowance,
            Error::Overflow => ErrorView::Overflow,
            Error::Rejected(reason) => ErrorView::Rejected(reason@),
            Error::Custom(message) => ErrorView::Custom(message@),
        }
    }
}

impl Error {
    /// The error with which the ledger reports a refusal by the guard.
    pub fn from_guard(refusal: GuardError) -> (error: Error)
        ensures
            error@ == ErrorView::Rejected(refusal.reason()),
    {
        match refusal {
            GuardError::Rejected(reason) => Error::Rejected(reason),
        }
    }

    /// Turns the error into its general form, for callers that know no refusal of
    /// their own: `Rejected` becomes `Custom` with the same message.
    pub fn generalize(self) -> (error: Error)
        ensures
            error@ == self@.generalized(),
    {
        match self {
            Error::Rejected(reason) => Error::Custom(reason),
            other => other,
        }
    }
}

} // verus!
