//! The invoice endpoints: upload, confirmation, funding, payment, the
//! protocol's fees and the clients' reliability scores.

use vstd::prelude::*;
use crate::account_manager::AccountManagerModule;
use crate::admin_config::AdminConfigModule;
use crate::amount::Amount;
use crate::errors::FactoringError;
use crate::events::{effects_view, Effect, EffectView, EventView, EventsModule};
use crate::fees::{
    advance_of, calculate_advance, commission_of, financing_fees_of, lemma_overdue_count_concat,
    duration_days, mul_div, overdue, overdue_count, score_for, total_fees_of,
};
use crate::storage::{
    account_amount, administrator_error, amount_in, balance_of, balances_map, balances_wf,
    caller_is_admin, find_token, set_balance, transition, with_amount, FactoringState,
    FactoringView, Storage,
};
use crate::types::{
    Address, CallContext, CompanyView, Invoice, InvoiceView, Payment, PaymentView, Status, TokenId, DAYS_PER_YEAR,
    DEFAULT_PERCENT_FEE, DEFAULT_SCORE, MIN_SCORE, ONE_HUNDRED_PERCENT, SECONDS_PER_DAY,
};

verus! {

/// There is an invoice with one-based index `id_invoice` under the contract.
pub open spec fn invoice_exists(m: FactoringView, id_contract: u64, id_invoice: u64) -> bool {
    &&& id_contract < m.invoices.len()
    &&& 1 <= id_invoice <= m.invoices[id_contract as int].len()
}

/// The invoice with one-based index `id_invoice` under the contract.
pub open spec fn invoice_at(m: FactoringView, id_contract: u64, id_invoice: u64) -> InvoiceView {
    m.invoices[id_contract as int][id_invoice - 1]
}

/// The storage with the invoice at `id_invoice` under the contract replaced.
pub open spec fn with_invoice(m: FactoringView, id_contract: u64, id_invoice: u64, invoice: InvoiceView) -> FactoringView {
    FactoringView {
        invoices: m.invoices.update(
            id_contract as int,
            m.invoices[id_contract as int].update(id_invoice - 1, invoice),
        ),
        ..m
    }
}

/// The invoice with a new status.
pub open spec fn with_status(invoice: InvoiceView, status: Status) -> InvoiceView {
    InvoiceView { status, ..invoice }
}

/// The supplier of the contract an invoice belongs to.
pub open spec fn supplier_of(m: FactoringView, id_contract: u64) -> CompanyView {
    m.companies[m.contracts[id_contract as int].id_supplier as int]
}

/// Why uploading an invoice fails, if it does.
pub open spec fn add_invoice_error(m: FactoringView, ctx: CallContext, id_contract: u64, token: TokenId) -> Option<FactoringError> {
    if !m.allowed_tokens.contains(token) {
        Some(FactoringError::ItemNotWhitelisted)
    } else if id_contract >= m.contracts.len() {
        Some(FactoringError::ContractNotFound)
    } else if administrator_error(m, m.contracts[id_contract as int].id_supplier, ctx.caller) is Some {
        administrator_error(m, m.contracts[id_contract as int].id_supplier, ctx.caller)
    } else if m.euribor_rate is None {
        Some(FactoringError::EuriborRateNotSet)
    } else if m.invoices[id_contract as int].len() >= u64::MAX {
        Some(FactoringError::CounterOverflow)
    } else {
        None
    }
}

/// The recorded Euribor rate (zero when none is).
pub open spec fn current_rate(m: FactoringView) -> u32 {
    match m.euribor_rate {
        Some((rate, _)) => rate,
        None => 0,
    }
}

/// The storage with an invoice appended to a contract.
pub open spec fn with_new_invoice(m: FactoringView, id_contract: u64, invoice: InvoiceView) -> FactoringView {
    FactoringView {
        invoices: m.invoices.update(id_contract as int, m.invoices[id_contract as int].push(invoice)),
        ..m
    }
}

/// Why confirming an invoice fails, if it does.
pub open spec fn confirm_invoice_error(m: FactoringView, ctx: CallContext, id_contract: u64, id_invoice: u64) -> Option<FactoringError> {
    if id_contract >= m.contracts.len() {
        Some(FactoringError::ContractNotFound)
    } else if administrator_error(m, m.contracts[id_contract as int].id_client, ctx.caller) is Some {
        administrator_error(m, m.contracts[id_contract as int].id_client, ctx.caller)
    } else if m.companies[m.contracts[id_contract as int].id_client as int].reliability_score <= MIN_SCORE {
        Some(FactoringError::InsufficientScore)
    } else if !invoice_exists(m, id_contract, id_invoice) {
        Some(FactoringError::InvoiceNotFound)
    } else if invoice_at(m, id_contract, id_invoice).status != Status::PendingValidation {
        Some(FactoringError::InvoiceConfirmWrongStatus)
    } else {
        None
    }
}

/// Why funding an invoice fails, if it does.
pub open spec fn fund_invoice_error(m: FactoringView, ctx: CallContext, id_contract: u64, id_invoice: u64, sc_balance: nat) -> Option<FactoringError> {
    if !caller_is_admin(m, ctx) {
        Some(FactoringError::ItemNotWhitelisted)
    } else if !invoice_exists(m, id_contract, id_invoice) {
        Some(FactoringError::InvoiceNotFound)
    } else if invoice_at(m, id_contract, id_invoice).status != Status::Valid {
        Some(FactoringError::InvoiceNotFundable)
    } else if sc_balance < invoice_at(m, id_contract, id_invoice).amount {
        Some(FactoringError::NotEnoughFunds)
    } else {
        None
    }
}

/// A transfer, or nothing when the amount is zero.
pub open spec fn transfer_if_not_empty(to: Address, token: TokenId, amount: nat) -> Seq<EffectView> {
    if amount > 0 {
        seq![EffectView::Transfer { to, token, amount }]
    } else {
        Seq::empty()
    }
}

/// Why paying an invoice fails, if it does.
pub open spec fn pay_invoice_error(m: FactoringView, ctx: CallContext, payment: PaymentView, id_contract: u64, id_invoice: u64) -> Option<FactoringError> {
    if id_contract >= m.contracts.len() {
        Some(FactoringError::ContractNotFound)
    } else if administrator_error(m, m.contracts[id_contract as int].id_client, ctx.caller) is Some {
        administrator_error(m, m.contracts[id_contract as int].id_client, ctx.caller)
    } else if !invoice_exists(m, id_contract, id_invoice) {
        Some(FactoringError::InvoiceNotFound)
    } else if invoice_at(m, id_contract, id_invoice).status != Status::PartiallyFunded {
        Some(FactoringError::InvoiceNotPayable)
    } else if payment.token != invoice_at(m, id_contract, id_invoice).identifier {
        Some(FactoringError::WrongTokenId)
    } else if payment.amount < invoice_at(m, id_contract, id_invoice).amount {
        Some(FactoringError::NotEnoughFunds)
    } else {
        None
    }
}

/// The invoice once paid at `now`.
pub open spec fn paid(invoice: InvoiceView, now: u64) -> InvoiceView {
    InvoiceView { status: Status::Payed, payed_date: Some(now), ..invoice }
}

/// Why paying an invoice from the client's deposited funds fails, if it does.
pub open spec fn pay_invoice_auto_error(m: FactoringView, ctx: CallContext, id_contract: u64, id_invoice: u64) -> Option<FactoringError> {
    if !caller_is_admin(m, ctx) {
        Some(FactoringError::ItemNotWhitelisted)
    } else if id_contract >= m.contracts.len() {
        Some(FactoringError::ContractNotFound)
    } else if !invoice_exists(m, id_contract, id_invoice) {
        Some(FactoringError::InvoiceNotFound)
    } else if account_amount(
        m,
        m.contracts[id_contract as int].id_client,
        invoice_at(m, id_contract, id_invoice).identifier,
    ) < invoice_at(m, id_contract, id_invoice).amount {
        Some(FactoringError::NotEnoughFunds)
    } else {
        None
    }
}

/// The storage once an invoice is paid from the client's deposited funds.
pub open spec fn with_auto_payment(m: FactoringView, id_contract: u64, id_invoice: u64, now: u64) -> FactoringView {
    let invoice = invoice_at(m, id_contract, id_invoice);
    let client = m.contracts[id_contract as int].id_client;
    let m2 = with_invoice(m, id_contract, id_invoice, paid(invoice, now));
    if client < m.account_funds.len() {
        FactoringView {
            account_funds: m2.account_funds.update(
                client as int,
                with_amount(
                    m.account_funds[client as int],
                    invoice.identifier,
                    (amount_in(m.account_funds[client as int], invoice.identifier) - invoice.amount) as nat,
                ),
            ),
            ..m2
        }
    } else {
        m2
    }
}

/// What is left to send the supplier of a paid invoice: the amount minus
/// the advance and the fees.
pub open spec fn remaining_of(invoice: InvoiceView) -> int {
    invoice.amount - advance_of(invoice.amount) - total_fees_of(invoice)
}

/// Why forwarding the rest of a paid invoice fails, if it does.
pub open spec fn fund_remaining_error(m: FactoringView, ctx: CallContext, id_contract: u64, id_invoice: u64) -> Option<FactoringError> {
    if !caller_is_admin(m, ctx) {
        Some(FactoringError::ItemNotWhitelisted)
    } else if !invoice_exists(m, id_contract, id_invoice) {
        Some(FactoringError::InvoiceNotFound)
    } else if invoice_at(m, id_contract, id_invoice).status != Status::Payed {
        Some(FactoringError::InvoiceNotFullyFundable)
    } else if invoice_at(m, id_contract, id_invoice).due_date < invoice_at(m, id_contract, id_invoice).issue_date {
        Some(FactoringError::DueDateBeforeIssueDate)
    } else if remaining_of(invoice_at(m, id_contract, id_invoice)) < 0 {
        Some(FactoringError::AmountWouldBeNegative)
    } else {
        None
    }
}

/// The invoices of the given contracts, one contract after the other.
pub open spec fn invoices_of(m: FactoringView, ids: Seq<u64>) -> Seq<InvoiceView>
    decreases ids.len(),
{
    if ids.len() == 0 {
        Seq::empty()
    } else {
        invoices_of(m, ids.drop_last()) + m.invoices[ids.last() as int]
    }
}

/// The reliability score of a company at time `now`: the default score less
/// one point per overdue invoice among the contracts it signed as a client,
/// never below zero.
pub open spec fn reliability_score(m: FactoringView, id_account: u64, now: u64) -> u8 {
    score_for(overdue_count(invoices_of(m, m.client_contracts[id_account as int]), now))
}

/// The storage with a company's reliability score replaced.
pub open spec fn with_score(m: FactoringView, id_account: u64, score: u8) -> FactoringView {
    let c = m.companies[id_account as int];
    FactoringView {
        companies: m.companies.update(id_account as int, CompanyView { reliability_score: score, ..c }),
        ..m
    }
}

/// The invoice endpoints of the contract.
pub trait Factoring: AccountManagerModule + AdminConfigModule + Storage {
    /// Uploads an invoice, pending validation, to a contract whose supplier
    /// the caller administers; its one-based index is the contract's new
    /// number of invoices.
    fn add_invoice(
        &mut self,
        ctx: &CallContext,
        id_contract: u64,
        hash: Vec<u8>,
        amount: Amount,
        issue_date: u64,
        due_date: u64,
        token_identifier: TokenId,
    ) -> (r: Result<Vec<Effect>, FactoringError>)
        requires
            old(self).wf(),
        ensures
            final(self).wf(),
            transition(
                r,
                old(self).model(),
                final(self).model(),
                add_invoice_error(old(self).model(), *ctx, id_contract, token_identifier),
                with_new_invoice(
                    old(self).model(),
                    id_contract,
                    InvoiceView {
                        hash: hash@,
                        amount: amount@,
                        identifier: token_identifier,
                        status: Status::PendingValidation,
                        issue_date,
                        due_date,
                        euribor_rate: current_rate(old(self).model()),
                        payed_date: None,
                    },
                ),
                seq![
                    EffectView::Log(
                        EventView::InvoiceAdd {
                            id_contract,
                            hash: hash@,
                            amount: amount@,
                            due_date,
                            invoice_id: (old(self).model().invoices[id_contract as int].len() + 1) as u64,
                            timestamp: ctx.block_timestamp,
                        },
                    ),
                ],
            ),
    ;

    /// Sets the status of an invoice pending validation, on behalf of the
    /// contract's client, whose administrator the caller must be and whose
    /// score must exceed the minimum.
    fn confirm_invoice(&mut self, ctx: &CallContext, id_contract: u64, id_invoice: u64, status: Status) -> (r: Result<Vec<Effect>, FactoringError>)
        requires
            old(self).wf(),
        ensures
            final(self).wf(),
            transition(
                r,
                old(self).model(),
                final(self).model(),
                confirm_invoice_error(old(self).model(), *ctx, id_contract, id_invoice),
                with_invoice(
                    old(self).model(),
                    id_contract,
                    id_invoice,
                    with_status(invoice_at(old(self).model(), id_contract, id_invoice), status),
                ),
                seq![
                    EffectView::Log(
                        EventView::InvoiceConfirm { id_contract, id_invoice, status, timestamp: ctx.block_timestamp },
                    ),
                ],
            ),
    ;

    /// Advances part of a valid invoice to the supplier, from the contract's
    /// balance `sc_balance` of the invoice's token.
    fn fund_invoice(&mut self, ctx: &CallContext, id_contract: u64, id_invoice: u64, sc_balance: &Amount) -> (r: Result<Vec<Effect>, FactoringError>)
        requires
            old(self).wf(),
        ensures
            final(self).wf(),
            transition(
                r,
                old(self).model(),
                final(self).model(),
                fund_invoice_error(old(self).model(), *ctx, id_contract, id_invoice, sc_balance@),
                with_invoice(
                    old(self).model(),
                    id_contract,
                    id_invoice,
                    with_status(invoice_at(old(self).model(), id_contract, id_invoice), Status::PartiallyFunded),
                ),
                transfer_if_not_empty(
                    supplier_of(old(self).model(), id_contract).withdraw_address,
                    invoice_at(old(self).model(), id_contract, id_invoice).identifier,
                    advance_of(invoice_at(old(self).model(), id_contract, id_invoice).amount),
                ) + seq![
                    EffectView::Log(EventView::InvoiceFund { id_contract, id_invoice, timestamp: ctx.block_timestamp }),
                ],
            ),
    ;

    /// The client pays a partially funded invoice with `payment`; any excess
    /// is sent back to the caller.
    fn pay_invoice(&mut self, ctx: &CallContext, payment: Payment, id_contract: u64, id_invoice: u64) -> (r: Result<Vec<Effect>, FactoringError>)
        requires
            old(self).wf(),
        ensures
            final(self).wf(),
            transition(
                r,
                old(self).model(),
                final(self).model(),
                pay_invoice_error(old(self).model(), *ctx, payment@, id_contract, id_invoice),
                with_invoice(
                    old(self).model(),
                    id_contract,
                    id_invoice,
                    paid(invoice_at(old(self).model(), id_contract, id_invoice), ctx.block_timestamp),
                ),
                transfer_if_not_empty(
                    ctx.caller,
                    payment.token,
                    (payment@.amount - invoice_at(old(self).model(), id_contract, id_invoice).amount) as nat,
                ) + seq![
                    EffectView::Log(EventView::InvoicePay { id_contract, id_invoice, pay_date: ctx.block_timestamp }),
                ],
            ),
    ;

    /// Pays an invoice out of the funds the client deposited.
    fn pay_invoice_auto(&mut self, ctx: &CallContext, id_contract: u64, id_invoice: u64) -> (r: Result<Vec<Effect>, FactoringError>)
        requires
            old(self).wf(),
        ensures
            final(self).wf(),
            transition(
                r,
                old(self).model(),
                final(self).model(),
                pay_invoice_auto_error(old(self).model(), *ctx, id_contract, id_invoice),
                with_auto_payment(old(self).model(), id_contract, id_invoice, ctx.block_timestamp),
                seq![
                    EffectView::Log(EventView::InvoicePay { id_contract, id_invoice, pay_date: ctx.block_timestamp }),
                ],
            ),
    ;

    /// Marks an invoice paid at `current_timestamp` and returns the event to log.
    fn pay_invoice_fn(&mut self, id_contract: u64, id_invoice: u64, current_timestamp: u64) -> (r: Effect)
        requires
            old(self).wf(),
            invoice_exists(old(self).model(), id_contract, id_invoice),
        ensures
            final(self).wf(),
            final(self).model() == with_invoice(
                old(self).model(),
                id_contract,
                id_invoice,
                paid(invoice_at(old(self).model(), id_contract, id_invoice), current_timestamp),
            ),
            r@ == EffectView::Log(EventView::InvoicePay { id_contract, id_invoice, pay_date: current_timestamp }),
    ;

    /// Sends the supplier of a paid invoice what is left of it once the
    /// advance and the fees are deducted.
    fn fund_remaining_amount(&mut self, ctx: &CallContext, id_contract: u64, id_invoice: u64) -> (r: Result<Vec<Effect>, FactoringError>)
        requires
            old(self).wf(),
        ensures
            final(self).wf(),
            transition(
                r,
                old(self).model(),
                final(self).model(),
                fund_remaining_error(old(self).model(), *ctx, id_contract, id_invoice),
                with_invoice(
                    old(self).model(),
                    id_contract,
                    id_invoice,
                    with_status(invoice_at(old(self).model(), id_contract, id_invoice), Status::FullyFunded),
                ),
                transfer_if_not_empty(
                    supplier_of(old(self).model(), id_contract).withdraw_address,
                    invoice_at(old(self).model(), id_contract, id_invoice).identifier,
                    remaining_of(invoice_at(old(self).model(), id_contract, id_invoice)) as nat,
                ) + seq![
                    EffectView::Log(
                        EventView::InvoiceFullyFund { id_contract, id_invoice, timestamp: ctx.block_timestamp },
                    ),
                ],
            ),
    ;

    /// Recomputes a company's reliability score at the current time.
    fn calculate_reliability_score(&mut self, ctx: &CallContext, id_account: u64) -> (r: Result<Vec<Effect>, FactoringError>)
        requires
            old(self).wf(),
        ensures
            final(self).wf(),
            transition(
                r,
                old(self).model(),
                final(self).model(),
                if id_account >= old(self).model().companies.len() {
                    Some(FactoringError::CompanyNotFound)
                } else {
                    None
                },
                with_score(
                    old(self).model(),
                    id_account,
                    reliability_score(old(self).model(), id_account, ctx.block_timestamp),
                ),
                seq![
                    EffectView::Log(
                        EventView::CompanyNewScore {
                            id_company: id_account,
                            score: reliability_score(old(self).model(), id_account, ctx.block_timestamp),
                        },
                    ),
                ],
            ),
    ;

    /// Tells whether an invoice with the given due date and payment date is
    /// overdue at time `current_timestamp`.
    fn is_invoice_overdue(&self, due_date: u64, opt_payed_date: Option<u64>, current_timestamp: u64) -> (r: bool)
        ensures
            r == overdue(due_date, opt_payed_date, current_timestamp),
    ;

    /// The financing fees of an amount between two dates at a yearly rate.
    fn calculate_financing_fees(&self, amount: &Amount, due_date: u64, issue_date: u64, euribor_rate: u32) -> (r: Amount)
        requires
            issue_date <= due_date,
        ensures
            r@ == financing_fees_of(amount@, due_date, issue_date, euribor_rate),
    ;

    /// The protocol's commission on an amount.
    fn calculate_commission(&self, amount: &Amount) -> (r: Amount)
        ensures
            r@ == commission_of(amount@),
            r@ <= amount@,
    ;

    /// Commission plus financing fees of an invoice.
    fn calculate_total_fees(&self, invoice: &Invoice) -> (r: Amount)
        requires
            invoice.issue_date <= invoice.due_date,
        ensures
            r@ == total_fees_of(invoice@),
    ;
}

impl FactoringState {
    /// Sets the status, and the payment date, of an existing invoice.
    fn update_invoice(&mut self, id_contract: u64, id_invoice: u64, status: Status, payed_date: Option<u64>)
        requires
            old(self).wf(),
            invoice_exists(old(self).model(), id_contract, id_invoice),
        ensures
            final(self).wf(),
            final(self).model() == with_invoice(
                old(self).model(),
                id_contract,
                id_invoice,
                InvoiceView { status, payed_date, ..invoice_at(old(self).model(), id_contract, id_invoice) },
            ),
    {
        let n_contracts = self.invoices_by_contract.len();
        assert(id_contract < n_contracts);
        let c = id_contract as usize;
        let n_invoices = self.invoices_by_contract[c].len();
        assert(id_invoice <= n_invoices);
        let k = (id_invoice - 1) as usize;
        let ghost old_self = *self;
        self.invoices_by_contract[c][k].status = status;
        self.invoices_by_contract[c][k].payed_date = payed_date;
        proof {
            let m = old_self.model();
            let target = with_invoice(
                m,
                id_contract,
                id_invoice,
                InvoiceView { status, payed_date, ..invoice_at(m, id_contract, id_invoice) },
            );
            assert(self.invoices_by_contract@ == old_self.invoices_by_contract@.update(c as int, self.invoices_by_contract@[c as int]));
            assert(self.invoices_by_contract@[c as int]@ == old_self.invoices_by_contract@[c as int]@.update(k as int, self.invoices_by_contract@[c as int]@[k as int]));
            assert(m.invoices[c as int][k as int] == old_self.invoices_by_contract@[c as int]@[k as int]@);
            assert(self.model().invoices[c as int] =~= target.invoices[c as int]);
            assert(self.model().invoices =~= target.invoices);
            assert forall|x: int| 0 <= x < self.invoices_by_contract@.len() implies #[trigger] self.invoices_by_contract@[x]@.len()
                <= u64::MAX by {
                assert(self.invoices_by_contract@[x]@.len() == old_self.invoices_by_contract@[x]@.len());
            }
        }
    }
}

/// Checks that a token is allowed.
fn require_allowed_token(state: &FactoringState, token: TokenId) -> (r: Result<(), FactoringError>)
    ensures
        r is Ok <==> state.model().allowed_tokens.contains(token),
        r matches Err(e) ==> e == FactoringError::ItemNotWhitelisted,
{
    match find_token(&state.allowed_tokens, token) {
        Some(_) => Ok(()),
        None => Err(FactoringError::ItemNotWhitelisted),
    }
}

/// The invoices of the first `i + 1` contracts are those of the first `i`
/// followed by those of contract `ids[i]`.
pub proof fn lemma_invoices_of_step(m: FactoringView, ids: Seq<u64>, i: int)
    requires
        0 <= i < ids.len(),
    ensures
        invoices_of(m, ids.take(i + 1)) == invoices_of(m, ids.take(i)) + m.invoices[ids[i] as int],
{
    assert(ids.take(i + 1).drop_last() =~= ids.take(i));
}

/// Counting overdue invoices over the contracts' prefixes only grows.
pub proof fn lemma_overdue_monotone(m: FactoringView, ids: Seq<u64>, k: int, n: int, now: u64)
    requires
        0 <= k <= n <= ids.len(),
    ensures
        overdue_count(invoices_of(m, ids.take(k)), now) <= overdue_count(invoices_of(m, ids.take(n)), now),
    decreases n - k,
{
    if k < n {
        lemma_overdue_monotone(m, ids, k, n - 1, now);
        lemma_invoices_of_step(m, ids, n - 1);
        lemma_overdue_count_concat(invoices_of(m, ids.take(n - 1)), m.invoices[ids[n - 1] as int], now);
    }
}

/// A prefix holds no more overdue invoices than the whole.
pub proof fn lemma_overdue_take(s: Seq<InvoiceView>, j: int, now: u64)
    requires
        0 <= j <= s.len(),
    ensures
        overdue_count(s.take(j), now) <= overdue_count(s, now),
{
    assert(s =~= s.take(j) + s.skip(j));
    lemma_overdue_count_concat(s.take(j), s.skip(j), now);
}

impl FactoringState {
    /// The reliability score of an existing company at time `now`.
    fn reliability_score_of(&self, id_account: usize, now: u64) -> (r: u8)
        requires
            self.wf(),
            id_account < self.companies@.len(),
        ensures
            r == reliability_score(self.model(), id_account as u64, now),
    {
        let ghost m = self.model();
        let ids = &self.contracts_client_by_account[id_account];
        let ghost all_ids = ids@;
        assert(m.client_contracts[id_account as int] == all_ids);
        let ghost full_count = overdue_count(invoices_of(m, all_ids), now);
        assert(all_ids.take(all_ids.len() as int) =~= all_ids);
        let mut total_reliability_score: u8 = DEFAULT_SCORE;
        let ghost mut count: nat = 0;
        let mut i: usize = 0;
        assert(all_ids.take(0) =~= Seq::<u64>::empty());
        while i < ids.len() && total_reliability_score > 0
            invariant
                self.wf(),
                m == self.model(),
                id_account < self.contracts_client_by_account@.len(),
                ids == &self.contracts_client_by_account@[id_account as int],
                ids@ == all_ids,
                all_ids == m.client_contracts[id_account as int],
                full_count == overdue_count(invoices_of(m, all_ids), now),
                all_ids.take(all_ids.len() as int) == all_ids,
                i <= all_ids.len(),
                total_reliability_score == score_for(count),
                count <= full_count,
                total_reliability_score > 0 ==> count == overdue_count(invoices_of(m, all_ids.take(i as int)), now),
            decreases all_ids.len() - i, total_reliability_score,
        {
            let id_contract = ids[i];
            let n_contracts = self.invoices_by_contract.len();
            assert(id_contract < n_contracts);
            let invoices = &self.invoices_by_contract[id_contract as usize];
            let ghost prefix = invoices_of(m, all_ids.take(i as int));
            let ghost invs = m.invoices[id_contract as int];
            assert(invs == invoices@.map_values(|v: Invoice| v@));
            assert(invs.len() == invoices@.len());
            proof {
                lemma_invoices_of_step(m, all_ids, i as int);
                lemma_overdue_monotone(m, all_ids, i as int + 1, all_ids.len() as int, now);
                lemma_overdue_count_concat(prefix, invs, now);
                assert(prefix + invs.take(0) =~= prefix);
            }
            let mut j: usize = 0;
            while j < invoices.len() && total_reliability_score > 0
                invariant
                    invs == m.invoices[id_contract as int],
                    invs.len() == invoices@.len(),
                    forall|x: int| 0 <= x < invs.len() ==> #[trigger] invs[x] == invoices@[x]@,
                    j <= invs.len(),
                    total_reliability_score == score_for(count),
                    count <= full_count,
                    overdue_count(prefix + invs, now) <= full_count,
                    overdue_count(prefix + invs, now) == overdue_count(prefix, now) + overdue_count(invs, now),
                    total_reliability_score > 0 ==> count == overdue_count(prefix + invs.take(j as int), now),
                decreases invs.len() - j, total_reliability_score,
            {
                let invoice = &invoices[j];
                assert(invs[j as int] == invoice@);
                proof {
                    assert((prefix + invs.take(j as int + 1)).drop_last() =~= prefix + invs.take(j as int));
                    assert((prefix + invs.take(j as int + 1)).last() == invs[j as int]);
                    lemma_overdue_count_concat(prefix, invs.take(j as int + 1), now);
                    lemma_overdue_take(invs, j as int + 1, now);
                }
                if self.is_invoice_overdue(invoice.due_date, invoice.payed_date, now) {
                    total_reliability_score = total_reliability_score - 1;
                    proof {
                        count = count + 1;
                    }
                }
                j = j + 1;
            }
            proof {
                if total_reliability_score > 0 {
                    assert(invs.take(j as int) =~= invs);
                }
            }
            i = i + 1;
        }
        total_reliability_score
    }
}

impl Factoring for FactoringState {
    fn add_invoice(
        &mut self,
        ctx: &CallContext,
        id_contract: u64,
        hash: Vec<u8>,
        amount: Amount,
        issue_date: u64,
        due_date: u64,
        token_identifier: TokenId,
    ) -> (r: Result<Vec<Effect>, FactoringError>) {
        require_allowed_token(self, token_identifier)?;
        let n_contracts = self.customer_contracts.len();
        if id_contract >= n_contracts as u64 {
            return Err(FactoringError::ContractNotFound);
        }
        let c = id_contract as usize;
        let contract = self.customer_contracts[c];
        self.require_valid_administrator(contract.id_supplier, ctx.caller)?;
        let rate = match self.euribor_rate {
            Some((rate, _timestamp)) => rate,
            None => {
                return Err(FactoringError::EuriborRateNotSet);
            },
        };
        let n_invoices = self.invoices_by_contract[c].len() as u64;
        if n_invoices == u64::MAX {
            return Err(FactoringError::CounterOverflow);
        }
        let new_invoice = Invoice {
            hash: hash.clone(),
            amount: amount.copy(),
            identifier: token_identifier,
            status: Status::PendingValidation,
            issue_date,
            due_date,
            euribor_rate: rate,
            payed_date: None,
        };
        let ghost invoice_view = new_invoice@;
        let ghost old_self = *self;
        self.invoices_by_contract[c].push(new_invoice);
        let invoice_id = n_invoices + 1;
        proof {
            let m = old_self.model();
            let target = with_new_invoice(m, id_contract, invoice_view);
            assert(self.invoices_by_contract@ == old_self.invoices_by_contract@.update(c as int, self.invoices_by_contract@[c as int]));
            assert(self.invoices_by_contract@[c as int]@ == old_self.invoices_by_contract@[c as int]@.push(new_invoice));
            assert(self.model().invoices[c as int] =~= target.invoices[c as int]);
            assert(self.model().invoices =~= target.invoices);
            assert forall|x: int| 0 <= x < self.invoices_by_contract@.len() implies #[trigger] self.invoices_by_contract@[x]@.len()
                <= u64::MAX by {
                if x != c {
                    assert(self.invoices_by_contract@[x] == old_self.invoices_by_contract@[x]);
                }
            }
        }
        let ghost hash_view = hash@;
        let ghost amount_view = amount@;
        let mut effects = Vec::new();
        effects.push(
            Effect::Log(
                EventsModule::InvoiceAdd {
                    id_contract,
                    hash,
                    amount,
                    due_date,
                    invoice_id,
                    timestamp: ctx.block_timestamp,
                },
            ),
        );
        assert(effects_view(effects@) =~= seq![
            EffectView::Log(
                EventView::InvoiceAdd {
                    id_contract,
                    hash: hash_view,
                    amount: amount_view,
                    due_date,
                    invoice_id,
                    timestamp: ctx.block_timestamp,
                },
            ),
        ]);
        Ok(effects)
    }

    fn confirm_invoice(&mut self, ctx: &CallContext, id_contract: u64, id_invoice: u64, status: Status) -> (r: Result<Vec<Effect>, FactoringError>) {
        let n_contracts = self.customer_contracts.len();
        if id_contract >= n_contracts as u64 {
            return Err(FactoringError::ContractNotFound);
        }
        let c = id_contract as usize;
        let contract = self.customer_contracts[c];
        self.require_valid_administrator(contract.id_client, ctx.caller)?;
        let n_companies = self.companies.len();
        assert(contract.id_client < n_companies);
        let client_score = self.companies[contract.id_client as usize].reliability_score;
        if client_score <= MIN_SCORE {
            return Err(FactoringError::InsufficientScore);
        }
        let n_invoices = self.invoices_by_contract[c].len();
        if id_invoice == 0 || id_invoice > n_invoices as u64 {
            return Err(FactoringError::InvoiceNotFound);
        }
        let current = self.invoices_by_contract[c][(id_invoice - 1) as usize].status;
        if current != Status::PendingValidation {
            return Err(FactoringError::InvoiceConfirmWrongStatus);
        }
        let payed_date = self.invoices_by_contract[c][(id_invoice - 1) as usize].payed_date;
        self.update_invoice(id_contract, id_invoice, status, payed_date);
        let mut effects = Vec::new();
        effects.push(
            Effect::Log(EventsModule::InvoiceConfirm { id_contract, id_invoice, status, timestamp: ctx.block_timestamp }),
        );
        assert(effects_view(effects@) =~= seq![
            EffectView::Log(EventView::InvoiceConfirm { id_contract, id_invoice, status, timestamp: ctx.block_timestamp }),
        ]);
        Ok(effects)
    }

    fn fund_invoice(&mut self, ctx: &CallContext, id_contract: u64, id_invoice: u64, sc_balance: &Amount) -> (r: Result<Vec<Effect>, FactoringError>) {
        self.require_caller_is_admin(ctx)?;
        let n_contracts = self.invoices_by_contract.len();
        if id_contract >= n_contracts as u64 {
            return Err(FactoringError::InvoiceNotFound);
        }
        let c = id_contract as usize;
        let n_invoices = self.invoices_by_contract[c].len();
        if id_invoice == 0 || id_invoice > n_invoices as u64 {
            return Err(FactoringError::InvoiceNotFound);
        }
        let k = (id_invoice - 1) as usize;
        proof {
            let m = self.model();
            assert(m.invoices[c as int] == self.invoices_by_contract@[c as int]@.map_values(|v: Invoice| v@));
            assert(invoice_at(m, id_contract, id_invoice) == self.invoices_by_contract@[c as int]@[k as int]@);
            assert(m.contracts[c as int] == self.customer_contracts@[c as int]);
        }
        if self.invoices_by_contract[c][k].status != Status::Valid {
            return Err(FactoringError::InvoiceNotFundable);
        }
        let contract = self.customer_contracts[c];
        let n_companies = self.companies.len();
        assert(contract.id_supplier < n_companies);
        let withdraw_address = self.companies[contract.id_supplier as usize].withdraw_address;
        assert(supplier_of(self.model(), id_contract).withdraw_address == withdraw_address);
        let token = self.invoices_by_contract[c][k].identifier;
        let payed_date = self.invoices_by_contract[c][k].payed_date;
        if !sc_balance.ge(&self.invoices_by_contract[c][k].amount) {
            return Err(FactoringError::NotEnoughFunds);
        }
        let percent_to_pay = calculate_advance(&self.invoices_by_contract[c][k].amount);
        let ghost advance = percent_to_pay@;
        let mut effects = Vec::new();
        if !percent_to_pay.is_zero() {
            effects.push(Effect::Transfer { to: withdraw_address, token, amount: percent_to_pay });
        }
        self.update_invoice(id_contract, id_invoice, Status::PartiallyFunded, payed_date);
        effects.push(Effect::Log(EventsModule::InvoiceFund { id_contract, id_invoice, timestamp: ctx.block_timestamp }));
        assert(effects_view(effects@) =~= transfer_if_not_empty(withdraw_address, token, advance) + seq![
            EffectView::Log(EventView::InvoiceFund { id_contract, id_invoice, timestamp: ctx.block_timestamp }),
        ]);
        Ok(effects)
    }

    fn pay_invoice(&mut self, ctx: &CallContext, payment: Payment, id_contract: u64, id_invoice: u64) -> (r: Result<Vec<Effect>, FactoringError>) {
        let n_contracts = self.customer_contracts.len();
        if id_contract >= n_contracts as u64 {
            return Err(FactoringError::ContractNotFound);
        }
        let c = id_contract as usize;
        let contract = self.customer_contracts[c];
        self.require_valid_administrator(contract.id_client, ctx.caller)?;
        let n_invoices = self.invoices_by_contract[c].len();
        if id_invoice == 0 || id_invoice > n_invoices as u64 {
            return Err(FactoringError::InvoiceNotFound);
        }
        let k = (id_invoice - 1) as usize;
        proof {
            let m = self.model();
            assert(m.invoices[c as int] == self.invoices_by_contract@[c as int]@.map_values(|v: Invoice| v@));
            assert(invoice_at(m, id_contract, id_invoice) == self.invoices_by_contract@[c as int]@[k as int]@);
        }
        if self.invoices_by_contract[c][k].status != Status::PartiallyFunded {
            return Err(FactoringError::InvoiceNotPayable);
        }
        if payment.token != self.invoices_by_contract[c][k].identifier {
            return Err(FactoringError::WrongTokenId);
        }
        let change = match payment.amount.checked_sub(&self.invoices_by_contract[c][k].amount) {
            Some(change) => change,
            None => {
                return Err(FactoringError::NotEnoughFunds);
            },
        };
        let ghost change_view = change@;
        let mut effects = Vec::new();
        if !change.is_zero() {
            effects.push(Effect::Transfer { to: ctx.caller, token: payment.token, amount: change });
        }
        let event = self.pay_invoice_fn(id_contract, id_invoice, ctx.block_timestamp);
        effects.push(event);
        assert(effects_view(effects@) =~= transfer_if_not_empty(ctx.caller, payment.token, change_view) + seq![
            EffectView::Log(EventView::InvoicePay { id_contract, id_invoice, pay_date: ctx.block_timestamp }),
        ]);
        Ok(effects)
    }

    fn pay_invoice_auto(&mut self, ctx: &CallContext, id_contract: u64, id_invoice: u64) -> (r: Result<Vec<Effect>, FactoringError>) {
        self.require_caller_is_admin(ctx)?;
        let n_contracts = self.customer_contracts.len();
        if id_contract >= n_contracts as u64 {
            return Err(FactoringError::ContractNotFound);
        }
        let c = id_contract as usize;
        let contract = self.customer_contracts[c];
        let n_invoices = self.invoices_by_contract[c].len();
        if id_invoice == 0 || id_invoice > n_invoices as u64 {
            return Err(FactoringError::InvoiceNotFound);
        }
        let k = (id_invoice - 1) as usize;
        proof {
            let m = self.model();
            assert(m.invoices[c as int] == self.invoices_by_contract@[c as int]@.map_values(|v: Invoice| v@));
            assert(invoice_at(m, id_contract, id_invoice) == self.invoices_by_contract@[c as int]@[k as int]@);
        }
        let token = self.invoices_by_contract[c][k].identifier;
        let n_accounts = self.funds_by_account.len();
        let client_known = contract.id_client < n_accounts as u64;
        let available_funds = if client_known {
            let client = contract.id_client as usize;
            assert(self.model().account_funds[client as int] == balances_map(self.funds_by_account@[client as int]@));
            balance_of(&self.funds_by_account[client], token)
        } else {
            Amount::zero()
        };
        let rest = match available_funds.checked_sub(&self.invoices_by_contract[c][k].amount) {
            Some(rest) => rest,
            None => {
                return Err(FactoringError::NotEnoughFunds);
            },
        };
        let ghost before = self.model();
        let event = self.pay_invoice_fn(id_contract, id_invoice, ctx.block_timestamp);
        if client_known {
            let client = contract.id_client as usize;
            let ghost mid_self = *self;
            assert(self.model().account_funds[client as int] == balances_map(self.funds_by_account@[client as int]@));
            set_balance(&mut self.funds_by_account[client], token, rest);
            proof {
                let target = with_auto_payment(before, id_contract, id_invoice, ctx.block_timestamp);
                assert(self.funds_by_account@ == mid_self.funds_by_account@.update(client as int, self.funds_by_account@[client as int]));
                assert(self.model().account_funds[client as int] == target.account_funds[client as int]);
                assert(self.model().account_funds =~= target.account_funds);
                assert forall|a: int| 0 <= a < self.funds_by_account@.len() implies balances_wf(
                    #[trigger] self.funds_by_account@[a]@,
                ) by {
                    if a != client {
                        assert(self.funds_by_account@[a] == mid_self.funds_by_account@[a]);
                    }
                }
            }
        }
        let mut effects = Vec::new();
        effects.push(event);
        assert(effects_view(effects@) =~= seq![
            EffectView::Log(EventView::InvoicePay { id_contract, id_invoice, pay_date: ctx.block_timestamp }),
        ]);
        Ok(effects)
    }

    fn pay_invoice_fn(&mut self, id_contract: u64, id_invoice: u64, current_timestamp: u64) -> (r: Effect) {
        self.update_invoice(id_contract, id_invoice, Status::Payed, Some(current_timestamp));
        Effect::Log(EventsModule::InvoicePay { id_contract, id_invoice, pay_date: current_timestamp })
    }

    fn fund_remaining_amount(&mut self, ctx: &CallContext, id_contract: u64, id_invoice: u64) -> (r: Result<Vec<Effect>, FactoringError>) {
        self.require_caller_is_admin(ctx)?;
        let current_timestamp = ctx.block_timestamp;
        let n_contracts = self.invoices_by_contract.len();
        if id_contract >= n_contracts as u64 {
            return Err(FactoringError::InvoiceNotFound);
        }
        let c = id_contract as usize;
        let n_invoices = self.invoices_by_contract[c].len();
        if id_invoice == 0 || id_invoice > n_invoices as u64 {
            return Err(FactoringError::InvoiceNotFound);
        }
        let k = (id_invoice - 1) as usize;
        proof {
            let m = self.model();
            assert(m.invoices[c as int] == self.invoices_by_contract@[c as int]@.map_values(|v: Invoice| v@));
            assert(invoice_at(m, id_contract, id_invoice) == self.invoices_by_contract@[c as int]@[k as int]@);
            assert(m.contracts[c as int] == self.customer_contracts@[c as int]);
        }
        if self.invoices_by_contract[c][k].status != Status::Payed {
            return Err(FactoringError::InvoiceNotFullyFundable);
        }
        let already_paid = calculate_advance(&self.invoices_by_contract[c][k].amount);
        let remaining_amount = match self.invoices_by_contract[c][k].amount.checked_sub(&already_paid) {
            Some(remaining) => remaining,
            None => {
                return Err(FactoringError::AmountWouldBeNegative);
            },
        };
        if self.invoices_by_contract[c][k].due_date < self.invoices_by_contract[c][k].issue_date {
            return Err(FactoringError::DueDateBeforeIssueDate);
        }
        let fees = self.calculate_total_fees(&self.invoices_by_contract[c][k]);
        let amount_to_send = match remaining_amount.checked_sub(&fees) {
            Some(rest) => rest,
            None => {
                return Err(FactoringError::AmountWouldBeNegative);
            },
        };
        let ghost to_send = amount_to_send@;
        let token = self.invoices_by_contract[c][k].identifier;
        let payed_date = self.invoices_by_contract[c][k].payed_date;
        let contract = self.customer_contracts[c];
        let n_companies = self.companies.len();
        assert(contract.id_supplier < n_companies);
        let withdraw_address = self.companies[contract.id_supplier as usize].withdraw_address;
        assert(supplier_of(self.model(), id_contract).withdraw_address == withdraw_address);
        let mut effects = Vec::new();
        if !amount_to_send.is_zero() {
            effects.push(Effect::Transfer { to: withdraw_address, token, amount: amount_to_send });
        }
        self.update_invoice(id_contract, id_invoice, Status::FullyFunded, payed_date);
        effects.push(Effect::Log(EventsModule::InvoiceFullyFund { id_contract, id_invoice, timestamp: current_timestamp }));
        assert(effects_view(effects@) =~= transfer_if_not_empty(withdraw_address, token, to_send) + seq![
            EffectView::Log(EventView::InvoiceFullyFund { id_contract, id_invoice, timestamp: current_timestamp }),
        ]);
        Ok(effects)
    }

    fn calculate_reliability_score(&mut self, ctx: &CallContext, id_account: u64) -> (r: Result<Vec<Effect>, FactoringError>) {
        let n_companies = self.companies.len();
        if id_account >= n_companies as u64 {
            return Err(FactoringError::CompanyNotFound);
        }
        let total_reliability_score = self.reliability_score_of(id_account as usize, ctx.block_timestamp);
        let ghost old_self = *self;
        self.companies[id_account as usize].reliability_score = total_reliability_score;
        proof {
            let m = old_self.model();
            let i = id_account as int;
            assert(self.companies@ == old_self.companies@.update(i, self.companies@[i]));
            assert(self.model().companies[i] == with_score(m, id_account, total_reliability_score).companies[i]);
            assert(self.model().companies =~= with_score(m, id_account, total_reliability_score).companies);
        }
        let mut effects = Vec::new();
        effects.push(Effect::Log(EventsModule::CompanyNewScore { id_company: id_account, score: total_reliability_score }));
        assert(effects_view(effects@) =~= seq![
            EffectView::Log(EventView::CompanyNewScore { id_company: id_account, score: total_reliability_score }),
        ]);
        Ok(effects)
    }

    fn is_invoice_overdue(&self, due_date: u64, opt_payed_date: Option<u64>, current_timestamp: u64) -> (r: bool) {
        match opt_payed_date {
            Some(payed_date) => current_timestamp > due_date && payed_date > due_date,
            None => current_timestamp > due_date,
        }
    }

    fn calculate_financing_fees(&self, amount: &Amount, due_date: u64, issue_date: u64, euribor_rate: u32) -> (r: Amount) {
        let duration_seconds = due_date - issue_date;
        let days = duration_seconds / SECONDS_PER_DAY;
        assert(days == duration_days(due_date, issue_date));
        let year_basis: u64 = 3_650_000;
        assert(year_basis == DAYS_PER_YEAR * ONE_HUNDRED_PERCENT);
        let scaled_by_rate = amount.mul_small(euribor_rate as u64);
        let scaled_by_time = scaled_by_rate.mul_small(days);
        proof {
            let a = amount@;
            let rate = euribor_rate as nat;
            let d = days as nat;
            assert(a * rate * d == a * (rate * d)) by (nonlinear_arith);
        }
        scaled_by_time.div_small(year_basis)
    }

    fn calculate_commission(&self, amount: &Amount) -> (r: Amount) {
        proof {
            assert(amount@ * 100 / 10000 <= amount@) by (nonlinear_arith)
                requires
                    amount@ >= 0,
            ;
        }
        mul_div(amount, DEFAULT_PERCENT_FEE, ONE_HUNDRED_PERCENT)
    }

    fn calculate_total_fees(&self, invoice: &Invoice) -> (r: Amount) {
        let commission = self.calculate_commission(&invoice.amount);
        let financing_fees = self.calculate_financing_fees(
            &invoice.amount,
            invoice.due_date,
            invoice.issue_date,
            invoice.euribor_rate,
        );
        commission.add(&financing_fees)
    }
}

} // verus!
