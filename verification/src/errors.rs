//! Why an endpoint call fails.

use vstd::prelude::*;

verus! {

/// The reasons a call is rejected; a rejected call changes nothing.
#[derive(PartialEq, Eq, Structural, Clone, Copy, Debug)]
pub enum FactoringError {
    /// The caller is not the owner nor on the admin list, or the token is
    /// not on the list of allowed tokens.
    ItemNotWhitelisted,
    /// The caller is not an administrator of the company concerned.
    CallerNotAdmin,
    /// There is no company with that id.
    CompanyNotFound,
    /// There is no factoring contract with that id.
    ContractNotFound,
    /// There is no invoice with that (one-based) index under the contract.
    InvoiceNotFound,
    /// No Euribor rate has been recorded yet.
    EuriborRateNotSet,
    /// The Hatom controller address has not been set.
    HatomControllerNotSet,
    /// A balance is smaller than the amount asked for.
    NotEnoughFunds,
    /// A new Euribor rate must carry a later timestamp than the current one.
    TimestampMustBeHigher,
    /// The client's reliability score is too low.
    InsufficientScore,
    /// Only an invoice pending validation can be confirmed.
    InvoiceConfirmWrongStatus,
    /// Only a valid invoice can be funded.
    InvoiceNotFundable,
    /// Only a partially funded invoice can be paid.
    InvoiceNotPayable,
    /// The payment is not in the invoice's token.
    WrongTokenId,
    /// Only a paid invoice can be fully funded.
    InvoiceNotFullyFundable,
    /// The fees exceed what is left of the invoice.
    AmountWouldBeNegative,
    /// The invoice's due date lies before its issue date.
    DueDateBeforeIssueDate,
    /// A counter of companies, contracts or invoices cannot grow further.
    CounterOverflow,
}

} // verus!
