//! Properties of the contract that relate several calls.

use vstd::prelude::*;
use crate::account_manager::{
    add_account_funds_error, remove_account_funds_error, sign_contract_error, with_account_amount,
    with_company_admin, with_new_company, with_new_contract, with_signed_contract,
};
use crate::admin_config::{
    add_euribor_rate_error, add_protocol_funds_error, remove_protocol_funds_error, with_protocol_amount,
};
use crate::errors::FactoringError;
use crate::factoring::{
    add_invoice_error, confirm_invoice_error, current_rate, fund_invoice_error, fund_remaining_error, invoice_at,
    invoice_exists, invoices_of, paid, pay_invoice_auto_error, supplier_of, transfer_if_not_empty, pay_invoice_error, reliability_score,
    remaining_of, with_auto_payment, with_invoice, with_new_invoice, with_score, with_status,
};
use crate::fees::{advance_of, lemma_overdue_count_concat, overdue, overdue_count, score_for, total_fees_of};
use crate::storage::{
    account_amount, amount_in, caller_is_admin, with_amount, FactoringState,
    FactoringView, Storage,
};
use crate::events::EffectView;
use crate::types::{
    Address, CallContext, CompanyView, CustomerContract, InvoiceView, PaymentView, Status, TokenId,
    DEFAULT_SCORE,
};

verus! {

/// Every amount held in a map of balances is positive, as storage keeps no
/// zero balance.
pub open spec fn no_zero_balance(m: Map<TokenId, nat>) -> bool {
    forall|t: TokenId| #[trigger] m.contains_key(t) ==> m[t] > 0
}

/// The model of consistent storage keeps no zero balance.
pub proof fn lemma_model_balances_positive(s: FactoringState)
    requires
        s.wf(),
    ensures
        no_zero_balance(s.model().protocol_funds),
        forall|a: int| 0 <= a < s.model().account_funds.len() ==> no_zero_balance(#[trigger] s.model().account_funds[a]),
{
    assert forall|t: TokenId| #[trigger] s.model().protocol_funds.contains_key(t) implies s.model().protocol_funds[t] > 0 by {
        let i = choose|i: int| 0 <= i < s.protocol_funds@.len() && #[trigger] s.protocol_funds@[i].token == t;
        crate::storage::lemma_balances_at(s.protocol_funds@, i);
    }
    assert forall|a: int| 0 <= a < s.model().account_funds.len() implies no_zero_balance(#[trigger] s.model().account_funds[a]) by {
        let v = s.funds_by_account@[a]@;
        assert(s.model().account_funds[a] == crate::storage::balances_map(v));
        assert forall|t: TokenId| #[trigger] s.model().account_funds[a].contains_key(t) implies s.model().account_funds[a][t] > 0 by {
            let i = choose|i: int| 0 <= i < v.len() && #[trigger] v[i].token == t;
            crate::storage::lemma_balances_at(v, i);
        }
    }
}

/// Adding to a balance and taking the same amount back leaves the balances
/// as they were.
pub proof fn lemma_with_amount_round_trip(m: Map<TokenId, nat>, t: TokenId, x: nat)
    requires
        no_zero_balance(m),
    ensures
        with_amount(
            with_amount(m, t, amount_in(m, t) + x),
            t,
            (amount_in(with_amount(m, t, amount_in(m, t) + x), t) - x) as nat,
        ) == m,
{
    let m1 = with_amount(m, t, amount_in(m, t) + x);
    assert(amount_in(m1, t) == amount_in(m, t) + x);
    if amount_in(m, t) == 0 {
        assert(!m.contains_key(t));
        assert(with_amount(m1, t, 0) =~= m);
    } else {
        assert(with_amount(m1, t, amount_in(m, t)) =~= m);
    }
}

/// A company's deposit taken back in full by a later withdrawal of the same
/// amount leaves the storage as it was, and the withdrawal is accepted.
pub proof fn law_account_funds_round_trip(s: FactoringState, ctx: CallContext, payment: PaymentView, id_account: u64)
    requires
        s.wf(),
        add_account_funds_error(s.model(), ctx, payment, id_account) is None,
    ensures
        ({
            let m = s.model();
            let m1 = with_account_amount(
                m,
                id_account,
                payment.token,
                amount_in(m.account_funds[id_account as int], payment.token) + payment.amount,
            );
            &&& remove_account_funds_error(m1, ctx, id_account, payment.token, payment.amount) is None
            &&& with_account_amount(
                m1,
                id_account,
                payment.token,
                (amount_in(m1.account_funds[id_account as int], payment.token) - payment.amount) as nat,
            ) == m
        }),
{
    let m = s.model();
    lemma_model_balances_positive(s);
    let a = id_account as int;
    let old_balances = m.account_funds[a];
    lemma_with_amount_round_trip(old_balances, payment.token, payment.amount);
    let m1 = with_account_amount(m, id_account, payment.token, amount_in(old_balances, payment.token) + payment.amount);
    assert(m1.account_funds[a] == with_amount(old_balances, payment.token, amount_in(old_balances, payment.token) + payment.amount));
    let m2 = with_account_amount(m1, id_account, payment.token, (amount_in(m1.account_funds[a], payment.token) - payment.amount) as nat);
    assert(m2.account_funds =~= m.account_funds);
}

/// Funds added to the protocol and taken back in full leave the storage as
/// it was, and the withdrawal is accepted.
pub proof fn law_protocol_funds_round_trip(s: FactoringState, ctx: CallContext, payment: PaymentView)
    requires
        s.wf(),
        add_protocol_funds_error(s.model(), ctx, payment) is None,
    ensures
        ({
            let m = s.model();
            let m1 = with_protocol_amount(m, payment.token, amount_in(m.protocol_funds, payment.token) + payment.amount);
            &&& remove_protocol_funds_error(m1, ctx, payment.token, payment.amount) is None
            &&& with_protocol_amount(m1, payment.token, (amount_in(m1.protocol_funds, payment.token) - payment.amount) as nat) == m
        }),
{
    let m = s.model();
    lemma_model_balances_positive(s);
    lemma_with_amount_round_trip(m.protocol_funds, payment.token, payment.amount);
}

/// Putting a new address on the admin list and taking it off again leaves
/// the admin list as it was.
pub proof fn law_admin_round_trip(m: FactoringView, address: Address)
    requires
        !m.admins.contains(address),
    ensures
        m.admins.insert(address).remove(address) == m.admins,
{
    assert(m.admins.insert(address).remove(address) =~= m.admins);
}

/// Allowing a new token and disallowing it again leaves the allowed tokens
/// as they were.
pub proof fn law_allowed_token_round_trip(m: FactoringView, token: TokenId)
    requires
        !m.allowed_tokens.contains(token),
    ensures
        m.allowed_tokens.insert(token).remove(token) == m.allowed_tokens,
{
    assert(m.allowed_tokens.insert(token).remove(token) =~= m.allowed_tokens);
}

/// An uploaded invoice is found again under the index the upload reports,
/// pending validation, and no other invoice changes.
pub proof fn law_invoice_read_after_add(
    s: FactoringState,
    ctx: CallContext,
    id_contract: u64,
    invoice: InvoiceView,
)
    requires
        s.wf(),
        add_invoice_error(s.model(), ctx, id_contract, invoice.identifier) is None,
    ensures
        ({
            let m = s.model();
            let m1 = with_new_invoice(m, id_contract, invoice);
            let id = (m.invoices[id_contract as int].len() + 1) as u64;
            &&& invoice_exists(m1, id_contract, id)
            &&& invoice_at(m1, id_contract, id) == invoice
            &&& forall|c: u64, i: u64|
                #![trigger invoice_at(m1, c, i)]
                invoice_exists(m, c, i) ==> invoice_exists(m1, c, i) && invoice_at(m1, c, i) == invoice_at(m, c, i)
        }),
{
    let m = s.model();
    let m1 = with_new_invoice(m, id_contract, invoice);
    assert(m.invoices.len() == m.contracts.len());
    assert forall|c: u64, i: u64|
        #![trigger invoice_at(m1, c, i)]
        invoice_exists(m, c, i) implies invoice_exists(m1, c, i) && invoice_at(m1, c, i) == invoice_at(m, c, i) by {
        if c != id_contract {
            assert(m1.invoices[c as int] == m.invoices[c as int]);
        } else {
            assert(m1.invoices[c as int] == m.invoices[c as int].push(invoice));
        }
    }
}

/// A signed contract is marked signed and listed exactly once among its
/// client's contracts.
pub proof fn law_signed_contract_listed(s: FactoringState, ctx: CallContext, id_contract: u64)
    requires
        s.wf(),
        sign_contract_error(s.model(), ctx, id_contract) is None,
    ensures
        ({
            let m = s.model();
            let m1 = with_signed_contract(m, id_contract);
            let client = m.contracts[id_contract as int].id_client as int;
            &&& m1.contracts[id_contract as int].is_signed
            &&& m1.client_contracts[client].contains(id_contract)
            &&& m1.client_contracts[client].no_duplicates()
        }),
{
    let m = s.model();
    let client = m.contracts[id_contract as int].id_client as int;
    assert(m.client_contracts[client] == s.contracts_client_by_account@[client]@);
    let l = m.client_contracts[client];
    if !l.contains(id_contract) {
        assert(l.push(id_contract)[l.len() as int] == id_contract);
        crate::storage::lemma_push_to_set(l, id_contract);
    }
}

/// A reliability score never exceeds the default score, equals it exactly
/// when nothing is overdue, and drops as overdue invoices accumulate.
pub proof fn law_reliability_score(a: nat, b: nat)
    ensures
        score_for(a) <= DEFAULT_SCORE,
        score_for(a) == DEFAULT_SCORE <==> a == 0,
        a <= b ==> score_for(b) <= score_for(a),
        a < DEFAULT_SCORE ==> score_for(a + 1) == score_for(a) - 1,
{
}

/// On an invoice that is fully funded, what the supplier receives in
/// advance and at the end, plus the protocol's fees, add up to the invoice's
/// amount, none of them negative.
pub proof fn law_invoice_settlement(invoice: InvoiceView)
    requires
        invoice.issue_date <= invoice.due_date,
        remaining_of(invoice) >= 0,
    ensures
        advance_of(invoice.amount) + remaining_of(invoice) + total_fees_of(invoice) == invoice.amount,
        0 <= advance_of(invoice.amount) <= invoice.amount,
        total_fees_of(invoice) >= 0,
{
    assert(0 <= advance_of(invoice.amount) <= invoice.amount) by (nonlinear_arith)
        requires
            advance_of(invoice.amount) == invoice.amount as int * 7000 / 10000,
            invoice.amount >= 0,
    ;
    assert(crate::fees::commission_of(invoice.amount) >= 0) by (nonlinear_arith)
        requires
            crate::fees::commission_of(invoice.amount) == invoice.amount as int * 100 / 10000,
            invoice.amount >= 0,
    ;
    let d = crate::fees::duration_days(invoice.due_date, invoice.issue_date);
    assert(d >= 0) by (nonlinear_arith)
        requires
            d == (invoice.due_date - invoice.issue_date) / 86400,
            invoice.due_date - invoice.issue_date >= 0,
    ;
    assert(crate::fees::financing_fees_of(invoice.amount, invoice.due_date, invoice.issue_date, invoice.euribor_rate) >= 0) by (nonlinear_arith)
        requires
            crate::fees::financing_fees_of(invoice.amount, invoice.due_date, invoice.issue_date, invoice.euribor_rate)
                == invoice.amount as int * (invoice.euribor_rate * d) / 3650000,
            invoice.amount >= 0,
            invoice.euribor_rate >= 0,
            d >= 0,
    ;
}

/// A valid invoice goes through funding, payment by its client and the
/// forwarding of the rest, each accepted in turn, and ends fully funded with
/// its payment date recorded.
pub proof fn law_invoice_lifecycle(
    s: FactoringState,
    admin: CallContext,
    client: CallContext,
    id_contract: u64,
    id_invoice: u64,
    sc_balance: nat,
    payment: PaymentView,
)
    requires
        s.wf(),
        crate::storage::caller_is_admin(s.model(), admin),
        invoice_exists(s.model(), id_contract, id_invoice),
        invoice_at(s.model(), id_contract, id_invoice).status == Status::Valid,
        sc_balance >= invoice_at(s.model(), id_contract, id_invoice).amount,
        crate::storage::administrator_error(
            s.model(),
            s.model().contracts[id_contract as int].id_client,
            client.caller,
        ) is None,
        payment.token == invoice_at(s.model(), id_contract, id_invoice).identifier,
        payment.amount >= invoice_at(s.model(), id_contract, id_invoice).amount,
        invoice_at(s.model(), id_contract, id_invoice).issue_date <= invoice_at(s.model(), id_contract, id_invoice).due_date,
        remaining_of(invoice_at(s.model(), id_contract, id_invoice)) >= 0,
    ensures
        ({
            let m = s.model();
            let inv = invoice_at(m, id_contract, id_invoice);
            let m1 = with_invoice(m, id_contract, id_invoice, with_status(inv, Status::PartiallyFunded));
            let m2 = with_invoice(m1, id_contract, id_invoice, paid(invoice_at(m1, id_contract, id_invoice), client.block_timestamp));
            let m3 = with_invoice(m2, id_contract, id_invoice, with_status(invoice_at(m2, id_contract, id_invoice), Status::FullyFunded));
            &&& fund_invoice_error(m, admin, id_contract, id_invoice, sc_balance) is None
            &&& pay_invoice_error(m1, client, payment, id_contract, id_invoice) is None
            &&& fund_remaining_error(m2, admin, id_contract, id_invoice) is None
            &&& invoice_at(m3, id_contract, id_invoice) == InvoiceView {
                status: Status::FullyFunded,
                payed_date: Some(client.block_timestamp),
                ..inv
            }
        }),
{
    let m = s.model();
    assert(m.invoices.len() == m.contracts.len());
}

/// Each recorded Euribor rate carries a later timestamp than the one before:
/// a successful call records the given rate and timestamp, and the same
/// timestamp cannot be recorded twice.
pub proof fn law_euribor_timestamps_increase(m: FactoringView, ctx: CallContext, timestamp: u64, rate: u32)
    requires
        add_euribor_rate_error(m, ctx, timestamp) is None,
    ensures
        m.euribor_rate matches Some((_, previous)) ==> previous < timestamp,
        add_euribor_rate_error(FactoringView { euribor_rate: Some((rate, timestamp)), ..m }, ctx, timestamp)
            == Some(FactoringError::TimestampMustBeHigher) || !crate::storage::caller_is_admin(m, ctx),
{
}

/// Only recording a new rate changes the Euribor rate: the storage that
/// every other successful endpoint leaves behind keeps the rate, and its
/// timestamp, as they were. (The endpoints whose next storage is written
/// out field by field in their contract, or is the storage unchanged, keep
/// it by their contract alone.)
pub proof fn law_euribor_rate_only_set_by_add_euribor_rate(
    m: FactoringView,
    company: CompanyView,
    contract: CustomerContract,
    invoice: InvoiceView,
    id_company: u64,
    id_contract: u64,
    id_invoice: u64,
    address: Address,
    token: TokenId,
    amount: nat,
    score: u8,
    now: u64,
)
    ensures
        with_new_company(m, company).euribor_rate == m.euribor_rate,
        with_new_contract(m, contract).euribor_rate == m.euribor_rate,
        with_signed_contract(m, id_contract).euribor_rate == m.euribor_rate,
        with_company_admin(m, id_company, address).euribor_rate == m.euribor_rate,
        with_account_amount(m, id_company, token, amount).euribor_rate == m.euribor_rate,
        with_protocol_amount(m, token, amount).euribor_rate == m.euribor_rate,
        with_new_invoice(m, id_contract, invoice).euribor_rate == m.euribor_rate,
        with_invoice(m, id_contract, id_invoice, invoice).euribor_rate == m.euribor_rate,
        with_auto_payment(m, id_contract, id_invoice, now).euribor_rate == m.euribor_rate,
        with_score(m, id_company, score).euribor_rate == m.euribor_rate,
{
}

/// The fees of an invoice are the 1% commission on its amount plus the
/// financing fees over the whole days from its issue date to its due date:
/// `amount * 100 / 10_000 + amount * (rate * ((due - issue) / 86_400)) / 3_650_000`.
pub proof fn law_total_fees_formula(invoice: InvoiceView)
    requires
        invoice.issue_date <= invoice.due_date,
    ensures
        total_fees_of(invoice) as int == invoice.amount * 100 / 10_000
            + invoice.amount * (invoice.euribor_rate * ((invoice.due_date - invoice.issue_date) / 86_400))
            / 3_650_000,
{
    let days = (invoice.due_date - invoice.issue_date) / 86_400;
    assert(days >= 0);
    assert(invoice.amount * 100 / 10_000 >= 0) by (nonlinear_arith)
        requires
            invoice.amount >= 0,
    ;
    assert(invoice.amount * (invoice.euribor_rate * days) / 3_650_000 >= 0) by (nonlinear_arith)
        requires
            invoice.amount >= 0,
            invoice.euribor_rate >= 0,
            days >= 0,
    ;
}

/// The fees of an invoice, and so what is left to forward to its supplier,
/// depend on its two dates only through the time between them: moving both
/// dates by the same amount changes neither.
pub proof fn law_fees_depend_on_duration_only(invoice: InvoiceView, shift: u64)
    requires
        invoice.issue_date <= invoice.due_date,
        invoice.due_date + shift <= u64::MAX,
    ensures
        ({
            let moved = InvoiceView {
                issue_date: (invoice.issue_date + shift) as u64,
                due_date: (invoice.due_date + shift) as u64,
                ..invoice
            };
            &&& total_fees_of(moved) == total_fees_of(invoice)
            &&& remaining_of(moved) == remaining_of(invoice)
        }),
{
    let moved = InvoiceView {
        issue_date: (invoice.issue_date + shift) as u64,
        due_date: (invoice.due_date + shift) as u64,
        ..invoice
    };
    law_total_fees_formula(invoice);
    law_total_fees_formula(moved);
    assert(moved.due_date - moved.issue_date == invoice.due_date - invoice.issue_date);
}

/// The invoices of a list of contracts depend only on the invoices stored.
proof fn lemma_invoices_of_same_invoices(m: FactoringView, m2: FactoringView, ids: Seq<u64>)
    requires
        m.invoices == m2.invoices,
    ensures
        invoices_of(m, ids) == invoices_of(m2, ids),
    decreases ids.len(),
{
    if ids.len() > 0 {
        lemma_invoices_of_same_invoices(m, m2, ids.drop_last());
    }
}

/// A company that signed no contract as a client keeps the full score.
pub proof fn law_reliability_score_without_contracts(m: FactoringView, id_account: u64, now: u64)
    requires
        m.client_contracts[id_account as int].len() == 0,
    ensures
        reliability_score(m, id_account, now) == DEFAULT_SCORE,
{
    assert(overdue_count(Seq::<InvoiceView>::empty(), now) == 0);
}

/// Every contract a company signed as a client counts: one more signed
/// contract with `k` overdue invoices lowers its score by `k`, down to zero.
pub proof fn law_reliability_score_counts_every_contract(m: FactoringView, id_account: u64, id_contract: u64, now: u64)
    requires
        id_account < m.client_contracts.len(),
    ensures
        ({
            let ids = m.client_contracts[id_account as int];
            let m2 = FactoringView {
                client_contracts: m.client_contracts.update(id_account as int, ids.push(id_contract)),
                ..m
            };
            let k = overdue_count(m.invoices[id_contract as int], now);
            let before = reliability_score(m, id_account, now);
            reliability_score(m2, id_account, now) == if before > k { (before - k) as u8 } else { 0u8 }
        }),
{
    let ids = m.client_contracts[id_account as int];
    let m2 = FactoringView {
        client_contracts: m.client_contracts.update(id_account as int, ids.push(id_contract)),
        ..m
    };
    assert(m2.client_contracts[id_account as int] == ids.push(id_contract));
    assert(ids.push(id_contract).drop_last() =~= ids);
    lemma_invoices_of_same_invoices(m, m2, ids);
    assert(invoices_of(m2, ids.push(id_contract)) == invoices_of(m, ids) + m.invoices[id_contract as int]);
    lemma_overdue_count_concat(invoices_of(m, ids), m.invoices[id_contract as int], now);
}

/// An invoice overdue at some time stays overdue later.
pub proof fn law_overdue_stays_overdue(due_date: u64, payed_date: Option<u64>, now: u64, later: u64)
    requires
        now <= later,
        overdue(due_date, payed_date, now),
    ensures
        overdue(due_date, payed_date, later),
{
}

/// Only a valid invoice is funded: funding is accepted exactly when the
/// caller is an administrator, the invoice exists, its status is `Valid`
/// and the contract holds at least its amount.
pub proof fn law_only_valid_invoices_are_funded(
    m: FactoringView,
    ctx: CallContext,
    id_contract: u64,
    id_invoice: u64,
    sc_balance: nat,
)
    ensures
        fund_invoice_error(m, ctx, id_contract, id_invoice, sc_balance) is None <==> (caller_is_admin(m, ctx)
            && invoice_exists(m, id_contract, id_invoice) && invoice_at(m, id_contract, id_invoice).status
            == Status::Valid && sc_balance >= invoice_at(m, id_contract, id_invoice).amount),
{
}

/// An invoice the client refused, or left in any status but `Valid`, is never funded.
pub proof fn law_refused_invoice_is_not_funded(
    m: FactoringView,
    ctx: CallContext,
    id_contract: u64,
    id_invoice: u64,
    sc_balance: nat,
    status: Status,
)
    requires
        invoice_exists(m, id_contract, id_invoice),
        status != Status::Valid,
    ensures
        fund_invoice_error(
            with_invoice(m, id_contract, id_invoice, with_status(invoice_at(m, id_contract, id_invoice), status)),
            ctx,
            id_contract,
            id_invoice,
            sc_balance,
        ) is Some,
{
    let m1 = with_invoice(m, id_contract, id_invoice, with_status(invoice_at(m, id_contract, id_invoice), status));
    assert(m1.invoices[id_contract as int].len() == m.invoices[id_contract as int].len());
    assert(invoice_at(m1, id_contract, id_invoice).status == status);
}

/// A confirmed invoice carries exactly the status the client gave, and
/// nothing else about it changes.
pub proof fn law_confirm_sets_given_status(m: FactoringView, ctx: CallContext, id_contract: u64, id_invoice: u64, status: Status)
    requires
        confirm_invoice_error(m, ctx, id_contract, id_invoice) is None,
    ensures
        ({
            let inv = invoice_at(m, id_contract, id_invoice);
            let m1 = with_invoice(m, id_contract, id_invoice, with_status(inv, status));
            &&& invoice_exists(m1, id_contract, id_invoice)
            &&& invoice_at(m1, id_contract, id_invoice) == InvoiceView {
                hash: inv.hash,
                amount: inv.amount,
                identifier: inv.identifier,
                status: status,
                issue_date: inv.issue_date,
                due_date: inv.due_date,
                euribor_rate: inv.euribor_rate,
                payed_date: inv.payed_date,
            }
        }),
{
}

/// Paying an invoice from the client's deposit is accepted only when the
/// deposit covers the whole amount, and then takes exactly that amount off
/// the deposit: what was deposited before equals what is left plus the
/// invoice's amount.
pub proof fn law_auto_payment_draws_exact_amount(
    s: FactoringState,
    ctx: CallContext,
    id_contract: u64,
    id_invoice: u64,
    now: u64,
)
    requires
        s.wf(),
        pay_invoice_auto_error(s.model(), ctx, id_contract, id_invoice) is None,
    ensures
        ({
            let m = s.model();
            let client = m.contracts[id_contract as int].id_client;
            let inv = invoice_at(m, id_contract, id_invoice);
            let m1 = with_auto_payment(m, id_contract, id_invoice, now);
            &&& account_amount(m, client, inv.identifier) >= inv.amount
            &&& account_amount(m1, client, inv.identifier) + inv.amount == account_amount(m, client, inv.identifier)
            &&& invoice_at(m1, id_contract, id_invoice).status == Status::Payed
            &&& invoice_at(m1, id_contract, id_invoice).payed_date == Some(now)
        }),
{
    let m = s.model();
    assert(m.invoices.len() == m.contracts.len());
    let client = m.contracts[id_contract as int].id_client;
    let inv = invoice_at(m, id_contract, id_invoice);
    let m1 = with_auto_payment(m, id_contract, id_invoice, now);
    if client < m.account_funds.len() {
        let f = m.account_funds[client as int];
        assert(m1.account_funds[client as int] == with_amount(f, inv.identifier, (amount_in(f, inv.identifier) - inv.amount) as nat));
    } else {
        assert(m1.account_funds == m.account_funds);
    }
}

/// Paying from the client's deposit is refused, with `NotEnoughFunds`, when
/// the deposit falls short of the invoice, even by a single unit, for an
/// administrator calling on an existing invoice.
pub proof fn law_auto_payment_refuses_short_deposit(m: FactoringView, ctx: CallContext, id_contract: u64, id_invoice: u64)
    requires
        caller_is_admin(m, ctx),
        id_contract < m.contracts.len(),
        invoice_exists(m, id_contract, id_invoice),
        account_amount(m, m.contracts[id_contract as int].id_client, invoice_at(m, id_contract, id_invoice).identifier)
            < invoice_at(m, id_contract, id_invoice).amount,
    ensures
        pay_invoice_auto_error(m, ctx, id_contract, id_invoice) == Some(FactoringError::NotEnoughFunds),
{
}

/// The advance on an invoice is 70% of its amount, rounded down, and never
/// more than the amount.
pub proof fn law_advance_is_seventy_percent(amount: nat)
    ensures
        advance_of(amount) as int == amount * 7_000 / 10_000,
        advance_of(amount) <= amount,
{
    assert(amount * 7_000 / 10_000 >= 0 && amount * 7_000 / 10_000 <= amount) by (nonlinear_arith);
}

/// Paying an invoice is accepted exactly when the client's administrator
/// pays an existing, partially funded invoice in its own token with at least
/// its amount; the invoice is then marked paid at the time of the call, and
/// what was paid above the amount goes back to the caller.
pub proof fn law_pay_invoice_accepts_full_payment(
    m: FactoringView,
    ctx: CallContext,
    payment: PaymentView,
    id_contract: u64,
    id_invoice: u64,
)
    ensures
        pay_invoice_error(m, ctx, payment, id_contract, id_invoice) is None <==> (id_contract < m.contracts.len()
            && administrator_error_free(m, m.contracts[id_contract as int].id_client, ctx.caller) && invoice_exists(
            m,
            id_contract,
            id_invoice,
        ) && invoice_at(m, id_contract, id_invoice).status == Status::PartiallyFunded && payment.token
            == invoice_at(m, id_contract, id_invoice).identifier && payment.amount >= invoice_at(
            m,
            id_contract,
            id_invoice,
        ).amount),
        paid(invoice_at(m, id_contract, id_invoice), ctx.block_timestamp).status == Status::Payed,
        paid(invoice_at(m, id_contract, id_invoice), ctx.block_timestamp).payed_date == Some(ctx.block_timestamp),
        paid(invoice_at(m, id_contract, id_invoice), ctx.block_timestamp).amount == invoice_at(m, id_contract, id_invoice).amount,
        paid(invoice_at(m, id_contract, id_invoice), ctx.block_timestamp).identifier == invoice_at(m, id_contract, id_invoice).identifier,
        payment.amount > invoice_at(m, id_contract, id_invoice).amount ==> transfer_if_not_empty(
            ctx.caller,
            payment.token,
            (payment.amount - invoice_at(m, id_contract, id_invoice).amount) as nat,
        ) == seq![
            EffectView::Transfer {
                to: ctx.caller,
                token: payment.token,
                amount: (payment.amount - invoice_at(m, id_contract, id_invoice).amount) as nat,
            },
        ],
        transfer_if_not_empty(ctx.caller, payment.token, 0).len() == 0,
{
}

/// The caller administers the company, which exists.
pub open spec fn administrator_error_free(m: FactoringView, company_id: u64, caller: Address) -> bool {
    company_id < m.companies.len() && m.companies[company_id as int].administrators.contains(caller)
}

/// Forwarding the rest of an invoice is accepted exactly when an
/// administrator asks it for an existing, paid invoice whose due date is not
/// before its issue date and whose advance and fees do not exceed its
/// amount; the supplier then receives the amount less the advance and the
/// fees.
pub proof fn law_fund_remaining_only_paid_invoices(m: FactoringView, ctx: CallContext, id_contract: u64, id_invoice: u64)
    ensures
        fund_remaining_error(m, ctx, id_contract, id_invoice) is None <==> (caller_is_admin(m, ctx) && invoice_exists(
            m,
            id_contract,
            id_invoice,
        ) && invoice_at(m, id_contract, id_invoice).status == Status::Payed && invoice_at(
            m,
            id_contract,
            id_invoice,
        ).issue_date <= invoice_at(m, id_contract, id_invoice).due_date && advance_of(
            invoice_at(m, id_contract, id_invoice).amount,
        ) + total_fees_of(invoice_at(m, id_contract, id_invoice)) <= invoice_at(m, id_contract, id_invoice).amount),
        remaining_of(invoice_at(m, id_contract, id_invoice)) == invoice_at(m, id_contract, id_invoice).amount
            - advance_of(invoice_at(m, id_contract, id_invoice).amount) - total_fees_of(
            invoice_at(m, id_contract, id_invoice),
        ),
{
}

/// Confirming an invoice is accepted exactly when the client's administrator
/// confirms an existing invoice still pending validation, and the client's
/// score is above the minimum.
pub proof fn law_confirm_only_pending_invoices(m: FactoringView, ctx: CallContext, id_contract: u64, id_invoice: u64)
    ensures
        confirm_invoice_error(m, ctx, id_contract, id_invoice) is None <==> (id_contract < m.contracts.len()
            && administrator_error_free(m, m.contracts[id_contract as int].id_client, ctx.caller)
            && m.companies[m.contracts[id_contract as int].id_client as int].reliability_score > 80
            && invoice_exists(m, id_contract, id_invoice) && invoice_at(m, id_contract, id_invoice).status
            == Status::PendingValidation),
{
}

/// A new invoice carries the Euribor rate recorded when it is uploaded.
pub proof fn law_new_invoice_takes_recorded_rate(m: FactoringView, rate: u32, timestamp: u64)
    requires
        m.euribor_rate == Some((rate, timestamp)),
    ensures
        current_rate(m) == rate,
{
}

/// When an invoice is overdue: an unpaid one exactly once the time is past
/// its due date; one paid by its due date never; one paid late once the
/// time is past its due date.
pub proof fn law_overdue_rules(due_date: u64, payed: u64, now: u64)
    ensures
        overdue(due_date, None, now) <==> now > due_date,
        payed <= due_date ==> !overdue(due_date, Some(payed), now),
        payed > due_date ==> (overdue(due_date, Some(payed), now) <==> now > due_date),
{
}

/// One invoice counts as one overdue invoice exactly when it is overdue, and
/// the overdue invoices of two lists add up.
pub proof fn law_overdue_count_counts(invoice: InvoiceView, a: Seq<InvoiceView>, b: Seq<InvoiceView>, now: u64)
    ensures
        overdue_count(seq![invoice], now) == if overdue(invoice.due_date, invoice.payed_date, now) {
            1nat
        } else {
            0nat
        },
        overdue_count(a + b, now) == overdue_count(a, now) + overdue_count(b, now),
{
    let one = seq![invoice];
    assert(one.drop_last() =~= Seq::<InvoiceView>::empty());
    assert(overdue_count(one.drop_last(), now) == 0);
    assert(one.last() == invoice);
    lemma_overdue_count_concat(a, b, now);
}

/// The advance on a funded invoice goes to the withdraw address of the
/// contract's supplier, in the invoice's token, unless it is zero.
pub proof fn law_advance_goes_to_supplier(m: FactoringView, id_contract: u64, id_invoice: u64)
    requires
        advance_of(invoice_at(m, id_contract, id_invoice).amount) > 0,
    ensures
        transfer_if_not_empty(
            supplier_of(m, id_contract).withdraw_address,
            invoice_at(m, id_contract, id_invoice).identifier,
            advance_of(invoice_at(m, id_contract, id_invoice).amount),
        ) == seq![
            EffectView::Transfer {
                to: m.companies[m.contracts[id_contract as int].id_supplier as int].withdraw_address,
                token: invoice_at(m, id_contract, id_invoice).identifier,
                amount: invoice_at(m, id_contract, id_invoice).amount * 7_000 / 10_000,
            },
        ],
{
    law_advance_is_seventy_percent(invoice_at(m, id_contract, id_invoice).amount);
}

/// Recomputing a score stores it on that company alone; every other
/// company keeps its own.
pub proof fn law_score_stored_on_company(m: FactoringView, id_account: u64, score: u8, other: int)
    requires
        id_account < m.companies.len(),
        0 <= other < m.companies.len(),
        other != id_account,
    ensures
        with_score(m, id_account, score).companies[id_account as int].reliability_score == score,
        with_score(m, id_account, score).companies[id_account as int].administrators
            == m.companies[id_account as int].administrators,
        with_score(m, id_account, score).companies[other] == m.companies[other],
        with_score(m, id_account, score).companies.len() == m.companies.len(),
{
}

} // verus!
