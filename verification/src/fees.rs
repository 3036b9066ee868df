//! The contract's arithmetic: what is advanced on an invoice, what the
//! protocol charges, and when an invoice is overdue.

use vstd::prelude::*;
use crate::amount::Amount;
use crate::types::{
    InvoiceView, DAYS_PER_YEAR, DEFAULT_PERCENT_FEE, DEFAULT_PERCENT_PAY, DEFAULT_SCORE,
    ONE_HUNDRED_PERCENT, SECONDS_PER_DAY,
};

verus! {

/// `amount * numerator / denominator`, rounded down.
pub open spec fn scaled(amount: nat, numerator: nat, denominator: nat) -> nat {
    (amount * numerator / denominator) as nat
}

/// Computes `amount * numerator / denominator`, rounded down, exactly.
pub fn mul_div(amount: &Amount, numerator: u64, denominator: u64) -> (r: Amount)
    requires
        denominator > 0,
    ensures
        r@ == scaled(amount@, numerator as nat, denominator as nat),
{
    let product = amount.mul_small(numerator);
    proof {
        assert(amount@ * numerator >= 0) by (nonlinear_arith)
            requires
                amount@ >= 0,
                numerator >= 0,
        ;
    }
    product.div_small(denominator)
}

/// The share of an invoice that is advanced to the supplier when the
/// invoice is funded: `DEFAULT_PERCENT_PAY * amount / ONE_HUNDRED_PERCENT`.
pub open spec fn advance_of(amount: nat) -> nat {
    scaled(amount, DEFAULT_PERCENT_PAY as nat, ONE_HUNDRED_PERCENT as nat)
}

/// Computes the share of an invoice's amount advanced on funding.
pub fn calculate_advance(amount: &Amount) -> (r: Amount)
    ensures
        r@ == advance_of(amount@),
        r@ <= amount@,
{
    proof {
        assert(amount@ * 7000 / 10000 <= amount@) by (nonlinear_arith)
            requires
                amount@ >= 0,
        ;
    }
    mul_div(amount, DEFAULT_PERCENT_PAY, ONE_HUNDRED_PERCENT)
}

/// The protocol's commission on an amount:
/// `DEFAULT_PERCENT_FEE * amount / ONE_HUNDRED_PERCENT`.
pub open spec fn commission_of(amount: nat) -> nat {
    scaled(amount, DEFAULT_PERCENT_FEE as nat, ONE_HUNDRED_PERCENT as nat)
}

/// Whole days between the issue and the due date.
pub open spec fn duration_days(due_date: u64, issue_date: u64) -> nat {
    ((due_date - issue_date) / (SECONDS_PER_DAY as int)) as nat
}

/// The interest charged for financing an invoice over its duration, at a
/// yearly rate given in basis points:
/// `amount * (rate * days) / (365 * ONE_HUNDRED_PERCENT)`.
pub open spec fn financing_fees_of(amount: nat, due_date: u64, issue_date: u64, euribor_rate: u32) -> nat {
    scaled(
        amount,
        (euribor_rate as nat) * duration_days(due_date, issue_date),
        (DAYS_PER_YEAR * ONE_HUNDRED_PERCENT) as nat,
    )
}

/// Commission plus financing fees of an invoice.
pub open spec fn total_fees_of(invoice: InvoiceView) -> nat {
    commission_of(invoice.amount)
        + financing_fees_of(invoice.amount, invoice.due_date, invoice.issue_date, invoice.euribor_rate)
}

/// An invoice is overdue once the current time is past its due date, unless
/// it was paid by then.
pub open spec fn overdue(due_date: u64, payed_date: Option<u64>, now: u64) -> bool {
    match payed_date {
        Some(payed) => now > due_date && payed > due_date,
        None => now > due_date,
    }
}

/// The number of overdue invoices in a sequence.
pub open spec fn overdue_count(invoices: Seq<InvoiceView>, now: u64) -> nat
    decreases invoices.len(),
{
    if invoices.len() == 0 {
        0
    } else {
        overdue_count(invoices.drop_last(), now) + if overdue(
            invoices.last().due_date,
            invoices.last().payed_date,
            now,
        ) {
            1nat
        } else {
            0nat
        }
    }
}

/// The reliability score of a company with `overdue` overdue invoices:
/// one point off the default score for each, never below zero.
pub open spec fn score_for(overdue: nat) -> u8 {
    if overdue >= DEFAULT_SCORE as nat {
        0u8
    } else {
        (DEFAULT_SCORE as nat - overdue) as u8
    }
}

/// Counting overdue invoices of a concatenation adds up.
pub proof fn lemma_overdue_count_concat(a: Seq<InvoiceView>, b: Seq<InvoiceView>, now: u64)
    ensures
        overdue_count(a + b, now) == overdue_count(a, now) + overdue_count(b, now),
    decreases b.len(),
{
    if b.len() == 0 {
        assert(a + b =~= a);
    } else {
        lemma_overdue_count_concat(a, b.drop_last(), now);
        assert((a + b).drop_last() =~= a + b.drop_last());
    }
}

} // verus!
