//! The failures that the ledger, the matching engine and the platform report.

use vstd::prelude::*;

verus! {

/// An application specific type of error
#[derive(Debug, PartialEq, Eq)]
pub enum AccountingError {
    /// No account exists under this name.
    AccountNotFound(String),
    /// The account holds less than the amount asked of it.
    AccountUnderFunded(String, u64),
    /// The account cannot take the amount without exceeding the balance width.
    AccountOverFunded(String, u64),
    /// The engine refused the order of this signer: its price or its amount
    /// is zero, or every ordinal has been handed out.
    OrderRejected(String),
}

/// The platform and the engine report the same failures as the ledger.
pub type ApplicationError = AccountingError;

/// The mathematical value of an [`AccountingError`].
pub enum ErrorView {
    AccountNotFound(Seq<char>),
    AccountUnderFunded(Seq<char>, u64),
    AccountOverFunded(Seq<char>, u64),
    OrderRejected(Seq<char>),
}

impl View for AccountingError {
    type V = ErrorView;

    open spec fn view(&self) -> ErrorView {
        match *self {
            AccountingError::AccountNotFound(signer) => ErrorView::AccountNotFound(signer@),
            AccountingError::AccountUnderFunded(signer, amount) => ErrorView::AccountUnderFunded(
                signer@,
                amount,
            ),
            AccountingError::AccountOverFunded(signer, amount) => ErrorView::AccountOverFunded(
                signer@,
                amount,
            ),
            AccountingError::OrderRejected(signer) => ErrorView::OrderRejected(signer@),
        }
    }
}

impl Clone for AccountingError {
    fn clone(&self) -> (copy: AccountingError)
        ensures
            copy@ == self@,
    {
        match self {
            AccountingError::AccountNotFound(signer) => AccountingError::AccountNotFound(
                signer.clone(),
            ),
            AccountingError::AccountUnderFunded(signer, amount) => {
                AccountingError::AccountUnderFunded(signer.clone(), *amount)
            },
            AccountingError::AccountOverFunded(signer, amount) => {
                AccountingError::AccountOverFunded(signer.clone(), *amount)
            },
            AccountingError::OrderRejected(signer) => AccountingError::OrderRejected(
                signer.clone(),
            ),
        }
    }
}

} // verus!
