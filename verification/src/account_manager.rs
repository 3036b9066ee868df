//! Endpoints through which companies register, open and sign factoring
//! contracts, manage their administrators and deposit funds.

use vstd::prelude::*;
use crate::admin_config::AdminConfigModule;
use crate::errors::FactoringError;
use crate::amount::Amount;
use crate::events::{effects_view, Effect, EffectView, EventView, EventsModule};
use crate::storage::{
    administrator_error, amount_in, balance_of, balances_map, balances_wf, caller_is_admin, find_address, find_token,
    set_balance, transition, with_amount, FactoringState, FactoringView, Storage,
};
use crate::types::{
    Address, CallContext, Company, CompanyView, CustomerContract, Payment, PaymentView, TokenId,
    DEFAULT_PERCENT_FEE, DEFAULT_SCORE,
};

verus! {

/// Why registering a company fails, if it does.
pub open spec fn add_company_error(m: FactoringView, ctx: CallContext) -> Option<FactoringError> {
    if !caller_is_admin(m, ctx) {
        Some(FactoringError::ItemNotWhitelisted)
    } else if m.companies.len() >= u64::MAX {
        Some(FactoringError::CounterOverflow)
    } else {
        None
    }
}

/// The storage once a company is registered under the next id.
pub open spec fn with_new_company(m: FactoringView, company: CompanyView) -> FactoringView {
    FactoringView {
        companies: m.companies.push(company),
        client_contracts: m.client_contracts.push(Seq::empty()),
        account_funds: m.account_funds.push(Map::empty()),
        ..m
    }
}

/// Why opening a factoring contract fails, if it does.
pub open spec fn create_contract_error(m: FactoringView, ctx: CallContext, id_supplier: u64) -> Option<FactoringError> {
    if administrator_error(m, id_supplier, ctx.caller) is Some {
        administrator_error(m, id_supplier, ctx.caller)
    } else if m.contracts.len() >= u64::MAX {
        Some(FactoringError::CounterOverflow)
    } else {
        None
    }
}

/// The storage once a contract is opened under the next id.
pub open spec fn with_new_contract(m: FactoringView, contract: CustomerContract) -> FactoringView {
    FactoringView {
        contracts: m.contracts.push(contract),
        invoices: m.invoices.push(Seq::empty()),
        ..m
    }
}

/// Why signing a contract fails, if it does.
pub open spec fn sign_contract_error(m: FactoringView, ctx: CallContext, id_contract: u64) -> Option<FactoringError> {
    if id_contract >= m.contracts.len() {
        Some(FactoringError::ContractNotFound)
    } else {
        administrator_error(m, m.contracts[id_contract as int].id_client, ctx.caller)
    }
}

/// A list used as a set, with a value added at the end unless already there.
pub open spec fn seq_insert(s: Seq<u64>, x: u64) -> Seq<u64> {
    if s.contains(x) {
        s
    } else {
        s.push(x)
    }
}

/// The storage once a contract is signed: the contract is marked signed and
/// listed among the client's contracts.
pub open spec fn with_signed_contract(m: FactoringView, id_contract: u64) -> FactoringView {
    let c = m.contracts[id_contract as int];
    FactoringView {
        contracts: m.contracts.update(id_contract as int, CustomerContract { is_signed: true, ..c }),
        client_contracts: m.client_contracts.update(
            c.id_client as int,
            seq_insert(m.client_contracts[c.id_client as int], id_contract),
        ),
        ..m
    }
}

/// The storage with an administrator added to a company.
pub open spec fn with_company_admin(m: FactoringView, company_id: u64, new_admin: Address) -> FactoringView {
    let c = m.companies[company_id as int];
    FactoringView {
        companies: m.companies.update(
            company_id as int,
            CompanyView { administrators: c.administrators.push(new_admin), ..c },
        ),
        ..m
    }
}

/// Why depositing funds for a company fails, if it does.
pub open spec fn add_account_funds_error(m: FactoringView, ctx: CallContext, payment: PaymentView, id_account: u64) -> Option<FactoringError> {
    if !m.allowed_tokens.contains(payment.token) {
        Some(FactoringError::ItemNotWhitelisted)
    } else {
        administrator_error(m, id_account, ctx.caller)
    }
}

/// Why withdrawing funds of a company fails, if it does.
pub open spec fn remove_account_funds_error(
    m: FactoringView,
    ctx: CallContext,
    id_account: u64,
    token: TokenId,
    amount: nat,
) -> Option<FactoringError> {
    if !m.allowed_tokens.contains(token) {
        Some(FactoringError::ItemNotWhitelisted)
    } else if administrator_error(m, id_account, ctx.caller) is Some {
        administrator_error(m, id_account, ctx.caller)
    } else if amount_in(m.account_funds[id_account as int], token) < amount {
        Some(FactoringError::NotEnoughFunds)
    } else {
        None
    }
}

/// The storage with a company's funds in a token set to `amount`.
pub open spec fn with_account_amount(m: FactoringView, id_account: u64, token: TokenId, amount: nat) -> FactoringView {
    FactoringView {
        account_funds: m.account_funds.update(
            id_account as int,
            with_amount(m.account_funds[id_account as int], token, amount),
        ),
        ..m
    }
}

/// Endpoints of companies and their factoring contracts.
pub trait AccountManagerModule: AdminConfigModule + Storage {
    /// Registers a company under the next id, with the default fee and score.
    fn add_company(
        &mut self,
        ctx: &CallContext,
        id_offchain: u64,
        administrators: Vec<Address>,
        is_kyc: bool,
        withdraw_address: Address,
    ) -> (r: Result<Vec<Effect>, FactoringError>)
        requires
            old(self).wf(),
        ensures
            final(self).wf(),
            transition(
                r,
                old(self).model(),
                final(self).model(),
                add_company_error(old(self).model(), *ctx),
                with_new_company(
                    old(self).model(),
                    CompanyView {
                        id_offchain,
                        administrators: administrators@,
                        is_kyc,
                        fee: DEFAULT_PERCENT_FEE,
                        withdraw_address,
                        reliability_score: DEFAULT_SCORE,
                    },
                ),
                seq![
                    EffectView::Log(
                        EventView::CompanyCreate {
                            id_offchain,
                            id_company: old(self).model().companies.len() as u64,
                            score: DEFAULT_SCORE,
                            fee: DEFAULT_PERCENT_FEE,
                        },
                    ),
                ],
            ),
    ;

    /// Opens an unsigned factoring contract between a supplier, whose
    /// administrator the caller must be, and a client.
    fn create_factoring_contract(&mut self, ctx: &CallContext, id_supplier: u64, id_client: u64) -> (r: Result<Vec<Effect>, FactoringError>)
        requires
            old(self).wf(),
        ensures
            final(self).wf(),
            transition(
                r,
                old(self).model(),
                final(self).model(),
                create_contract_error(old(self).model(), *ctx, id_supplier),
                with_new_contract(
                    old(self).model(),
                    CustomerContract { id_supplier, id_client, is_signed: false },
                ),
                seq![
                    EffectView::Log(
                        EventView::ContractCreate {
                            id_supplier,
                            id_client,
                            id_contract: old(self).model().contracts.len() as u64,
                        },
                    ),
                ],
            ),
    ;

    /// Signs a contract on behalf of its client, whose administrator the
    /// caller must be.
    fn sign_contract(&mut self, ctx: &CallContext, id_contract: u64) -> (r: Result<Vec<Effect>, FactoringError>)
        requires
            old(self).wf(),
        ensures
            final(self).wf(),
            transition(
                r,
                old(self).model(),
                final(self).model(),
                sign_contract_error(old(self).model(), *ctx, id_contract),
                with_signed_contract(old(self).model(), id_contract),
                seq![EffectView::Log(EventView::ContractSign { id_contract })],
            ),
    ;

    /// Adds an administrator to a company the caller administers.
    fn add_company_administrator(&mut self, ctx: &CallContext, company_id: u64, new_admin: Address) -> (r: Result<Vec<Effect>, FactoringError>)
        requires
            old(self).wf(),
        ensures
            final(self).wf(),
            transition(
                r,
                old(self).model(),
                final(self).model(),
                administrator_error(old(self).model(), company_id, ctx.caller),
                with_company_admin(old(self).model(), company_id, new_admin),
                seq![EffectView::Log(EventView::CompanyAddAdmin { id_company: company_id, address: new_admin })],
            ),
    ;

    /// Deposits the payment to the funds of a company the caller administers.
    fn add_account_funds(&mut self, ctx: &CallContext, payment: Payment, id_account: u64) -> (r: Result<Vec<Effect>, FactoringError>)
        requires
            old(self).wf(),
        ensures
            final(self).wf(),
            transition(
                r,
                old(self).model(),
                final(self).model(),
                add_account_funds_error(old(self).model(), *ctx, payment@, id_account),
                with_account_amount(
                    old(self).model(),
                    id_account,
                    payment.token,
                    amount_in(old(self).model().account_funds[id_account as int], payment.token)
                        + payment.amount@,
                ),
                seq![EffectView::Log(EventView::CompanyAddFunds { id_company: id_account })],
            ),
    ;

    /// Takes `amount` of `token` off the funds of a company the caller
    /// administers.
    fn remove_account_funds(
        &mut self,
        ctx: &CallContext,
        id_account: u64,
        token_identifier: TokenId,
        amount: Amount,
    ) -> (r: Result<Vec<Effect>, FactoringError>)
        requires
            old(self).wf(),
        ensures
            final(self).wf(),
            transition(
                r,
                old(self).model(),
                final(self).model(),
                remove_account_funds_error(old(self).model(), *ctx, id_account, token_identifier, amount@),
                with_account_amount(
                    old(self).model(),
                    id_account,
                    token_identifier,
                    (amount_in(old(self).model().account_funds[id_account as int], token_identifier)
                        - amount@) as nat,
                ),
                seq![EffectView::Log(EventView::CompanyRemoveFunds { id_company: id_account })],
            ),
    ;

    /// Fails unless the company exists and `caller` is one of its administrators.
    fn require_valid_administrator(&self, company_id: u64, caller: Address) -> (r: Result<(), FactoringError>)
        requires
            self.wf(),
        ensures
            match r {
                Ok(()) => administrator_error(self.model(), company_id, caller) is None,
                Err(e) => administrator_error(self.model(), company_id, caller) == Some(e),
            },
    ;
}

/// Tells whether a list of ids holds `x`.
pub fn contains_id(v: &Vec<u64>, x: u64) -> (r: bool)
    ensures
        r == v@.contains(x),
{
    let mut i: usize = 0;
    while i < v.len()
        invariant
            i <= v@.len(),
            forall|k: int| 0 <= k < i ==> #[trigger] v@[k] != x,
        decreases v@.len() - i,
    {
        if v[i] == x {
            assert(v@[i as int] == x);
            return true;
        }
        i = i + 1;
    }
    false
}

impl AccountManagerModule for FactoringState {
    fn add_company(
        &mut self,
        ctx: &CallContext,
        id_offchain: u64,
        administrators: Vec<Address>,
        is_kyc: bool,
        withdraw_address: Address,
    ) -> (r: Result<Vec<Effect>, FactoringError>) {
        self.require_caller_is_admin(ctx)?;
        let id_company = self.companies.len() as u64;
        if id_company == u64::MAX {
            return Err(FactoringError::CounterOverflow);
        }
        let new_company = Company {
            id_offchain,
            administrators,
            is_kyc,
            fee: DEFAULT_PERCENT_FEE,
            withdraw_address,
            reliability_score: DEFAULT_SCORE,
        };
        let ghost old_self = *self;
        self.companies.push(new_company);
        self.contracts_client_by_account.push(Vec::new());
        self.funds_by_account.push(Vec::new());
        proof {
            let m = old_self.model();
            assert(self.model().companies =~= m.companies.push(new_company@));
            assert(self.model().client_contracts =~= m.client_contracts.push(Seq::empty()));
            assert(self.model().account_funds[id_company as int] =~= Map::<TokenId, nat>::empty());
            assert(self.model().account_funds =~= m.account_funds.push(Map::empty()));
            assert forall|a: int| 0 <= a < self.funds_by_account@.len() implies balances_wf(
                #[trigger] self.funds_by_account@[a]@,
            ) by {
                if a < old_self.funds_by_account@.len() {
                    assert(self.funds_by_account@[a] == old_self.funds_by_account@[a]);
                }
            }
            assert forall|a: int| 0 <= a < self.contracts_client_by_account@.len() implies #[trigger] self.contracts_client_by_account@[a]@.no_duplicates() by {
                if a < old_self.contracts_client_by_account@.len() {
                    assert(self.contracts_client_by_account@[a] == old_self.contracts_client_by_account@[a]);
                }
            }
            assert forall|a: int, j: int|
                0 <= a < self.contracts_client_by_account@.len() && 0 <= j
                    < self.contracts_client_by_account@[a]@.len() implies #[trigger] self.contracts_client_by_account@[a]@[j]
                < self.customer_contracts@.len() by {
                assert(a < old_self.contracts_client_by_account@.len());
                assert(self.contracts_client_by_account@[a] == old_self.contracts_client_by_account@[a]);
            }
        }
        let mut effects = Vec::new();
        effects.push(
            Effect::Log(
                EventsModule::CompanyCreate {
                    id_offchain,
                    id_company,
                    score: DEFAULT_SCORE,
                    fee: DEFAULT_PERCENT_FEE,
                },
            ),
        );
        assert(effects_view(effects@) =~= seq![EffectView::Log(EventView::CompanyCreate { id_offchain, id_company, score: DEFAULT_SCORE, fee: DEFAULT_PERCENT_FEE })]);
        Ok(effects)
    }

    fn create_factoring_contract(&mut self, ctx: &CallContext, id_supplier: u64, id_client: u64) -> (r: Result<Vec<Effect>, FactoringError>) {
        self.require_valid_administrator(id_supplier, ctx.caller)?;
        let id_contract = self.customer_contracts.len() as u64;
        if id_contract == u64::MAX {
            return Err(FactoringError::CounterOverflow);
        }
        let new_contract = CustomerContract { id_supplier, id_client, is_signed: false };
        let ghost old_self = *self;
        self.customer_contracts.push(new_contract);
        self.invoices_by_contract.push(Vec::new());
        proof {
            let m = old_self.model();
            assert(self.model().invoices[id_contract as int] =~= Seq::<crate::types::InvoiceView>::empty());
            assert(self.model().invoices =~= m.invoices.push(Seq::empty()));
            assert(self.model().contracts =~= m.contracts.push(new_contract));
            assert forall|c: int| 0 <= c < self.invoices_by_contract@.len() implies #[trigger] self.invoices_by_contract@[c]@.len()
                <= u64::MAX by {
                if c < old_self.invoices_by_contract@.len() {
                    assert(self.invoices_by_contract@[c] == old_self.invoices_by_contract@[c]);
                }
            }
            assert forall|c: int| 0 <= c < self.customer_contracts@.len() implies #[trigger] self.customer_contracts@[c].id_supplier
                < self.companies@.len() by {
                if c < old_self.customer_contracts@.len() {
                    assert(self.customer_contracts@[c] == old_self.customer_contracts@[c]);
                }
            }
        }
        let mut effects = Vec::new();
        effects.push(Effect::Log(EventsModule::ContractCreate { id_supplier, id_client, id_contract }));
        assert(effects_view(effects@) =~= seq![EffectView::Log(EventView::ContractCreate { id_supplier, id_client, id_contract })]);
        Ok(effects)
    }

    fn sign_contract(&mut self, ctx: &CallContext, id_contract: u64) -> (r: Result<Vec<Effect>, FactoringError>) {
        if id_contract as usize >= self.customer_contracts.len() || id_contract >= self.customer_contracts.len() as u64 {
            return Err(FactoringError::ContractNotFound);
        }
        let contract = self.customer_contracts[id_contract as usize];
        self.require_valid_administrator(contract.id_client, ctx.caller)?;
        let n_companies = self.companies.len();
        assert(contract.id_client < n_companies);
        let ghost old_self = *self;
        let client = contract.id_client as usize;
        self.customer_contracts.set(id_contract as usize, CustomerContract { is_signed: true, ..contract });
        if !contains_id(&self.contracts_client_by_account[client], id_contract) {
            self.contracts_client_by_account[client].push(id_contract);
        }
        proof {
            let m = old_self.model();
            let list = old_self.contracts_client_by_account@[client as int]@;
            assert(m.client_contracts[client as int] == list);
            assert(m.contracts[id_contract as int] == contract);
            assert(self.contracts_client_by_account@ == old_self.contracts_client_by_account@.update(client as int, self.contracts_client_by_account@[client as int]));
            assert(self.contracts_client_by_account@[client as int]@ =~= seq_insert(list, id_contract));
            assert(self.model().client_contracts[client as int] == with_signed_contract(m, id_contract).client_contracts[client as int]);
            assert(self.model().client_contracts =~= with_signed_contract(m, id_contract).client_contracts);
            assert(self.model().contracts =~= with_signed_contract(m, id_contract).contracts);
            assert forall|a: int| 0 <= a < self.contracts_client_by_account@.len() implies #[trigger] self.contracts_client_by_account@[a]@.no_duplicates() by {
                if a != client {
                    assert(self.contracts_client_by_account@[a] == old_self.contracts_client_by_account@[a]);
                } else if !list.contains(id_contract) {
                    assert(self.contracts_client_by_account@[a]@ =~= list.push(id_contract));
                    assert(old_self.contracts_client_by_account@[a]@.no_duplicates());
                } else {
                    assert(self.contracts_client_by_account@[a]@ =~= list);
                    assert(old_self.contracts_client_by_account@[a]@.no_duplicates());
                }
            }
            assert forall|a: int, j: int|
                0 <= a < self.contracts_client_by_account@.len() && 0 <= j
                    < self.contracts_client_by_account@[a]@.len() implies #[trigger] self.contracts_client_by_account@[a]@[j]
                < self.customer_contracts@.len() by {
                if a != client {
                    assert(self.contracts_client_by_account@[a] == old_self.contracts_client_by_account@[a]);
                } else if j < list.len() {
                    assert(self.contracts_client_by_account@[a]@[j] == list[j]);
                }
            }
            assert forall|c: int| 0 <= c < self.customer_contracts@.len() implies #[trigger] self.customer_contracts@[c].id_supplier
                < self.companies@.len() by {
                assert(old_self.customer_contracts@[c].id_supplier < self.companies@.len());
            }
        }
        let mut effects = Vec::new();
        effects.push(Effect::Log(EventsModule::ContractSign { id_contract }));
        assert(effects_view(effects@) =~= seq![EffectView::Log(EventView::ContractSign { id_contract })]);
        Ok(effects)
    }

    fn add_company_administrator(&mut self, ctx: &CallContext, company_id: u64, new_admin: Address) -> (r: Result<Vec<Effect>, FactoringError>) {
        self.require_valid_administrator(company_id, ctx.caller)?;
        let n_companies = self.companies.len();
        assert(company_id < n_companies);
        let ghost old_self = *self;
        self.companies[company_id as usize].administrators.push(new_admin);
        proof {
            let m = old_self.model();
            let i = company_id as int;
            assert(self.companies@ == old_self.companies@.update(i, self.companies@[i]));
            assert(self.companies@[i].administrators@ == old_self.companies@[i].administrators@.push(new_admin));
            assert(m.companies[i] == old_self.companies@[i]@);
            assert(self.model().companies[i] == with_company_admin(m, company_id, new_admin).companies[i]);
            assert(self.model().companies =~= with_company_admin(m, company_id, new_admin).companies);
        }
        let mut effects = Vec::new();
        effects.push(Effect::Log(EventsModule::CompanyAddAdmin { id_company: company_id, address: new_admin }));
        assert(effects_view(effects@) =~= seq![EffectView::Log(EventView::CompanyAddAdmin { id_company: company_id, address: new_admin })]);
        Ok(effects)
    }

    fn add_account_funds(&mut self, ctx: &CallContext, payment: Payment, id_account: u64) -> (r: Result<Vec<Effect>, FactoringError>) {
        if find_token(&self.allowed_tokens, payment.token).is_none() {
            return Err(FactoringError::ItemNotWhitelisted);
        }
        self.require_valid_administrator(id_account, ctx.caller)?;
        let n_companies = self.companies.len();
        assert(id_account < n_companies);
        let account = id_account as usize;
        assert(self.model().account_funds[id_account as int] == balances_map(self.funds_by_account@[account as int]@));
        let available = balance_of(&self.funds_by_account[account], payment.token);
        let total = available.add(&payment.amount);
        let ghost total_value = total@;
        let ghost old_self = *self;
        set_balance(&mut self.funds_by_account[account], payment.token, total);
        proof {
            let total = total_value;
            let m = old_self.model();
            assert(self.funds_by_account@ == old_self.funds_by_account@.update(account as int, self.funds_by_account@[account as int]));
            assert(self.model().account_funds[account as int] == with_account_amount(m, id_account, payment.token, total).account_funds[account as int]);
            assert(self.model().account_funds =~= with_account_amount(m, id_account, payment.token, total).account_funds);
            assert forall|a: int| 0 <= a < self.funds_by_account@.len() implies balances_wf(
                #[trigger] self.funds_by_account@[a]@,
            ) by {
                if a != account {
                    assert(self.funds_by_account@[a] == old_self.funds_by_account@[a]);
                }
            }
        }
        let mut effects = Vec::new();
        effects.push(Effect::Log(EventsModule::CompanyAddFunds { id_company: id_account }));
        assert(effects_view(effects@) =~= seq![EffectView::Log(EventView::CompanyAddFunds { id_company: id_account })]);
        Ok(effects)
    }

    fn remove_account_funds(
        &mut self,
        ctx: &CallContext,
        id_account: u64,
        token_identifier: TokenId,
        amount: Amount,
    ) -> (r: Result<Vec<Effect>, FactoringError>) {
        if find_token(&self.allowed_tokens, token_identifier).is_none() {
            return Err(FactoringError::ItemNotWhitelisted);
        }
        self.require_valid_administrator(id_account, ctx.caller)?;
        let n_companies = self.companies.len();
        assert(id_account < n_companies);
        let account = id_account as usize;
        assert(self.model().account_funds[id_account as int] == balances_map(self.funds_by_account@[account as int]@));
        let available_funds = balance_of(&self.funds_by_account[account], token_identifier);
        let rest = match available_funds.checked_sub(&amount) {
            Some(rest) => rest,
            None => {
                return Err(FactoringError::NotEnoughFunds);
            },
        };
        let ghost rest_value = rest@;
        let ghost old_self = *self;
        set_balance(&mut self.funds_by_account[account], token_identifier, rest);
        proof {
            let m = old_self.model();
            assert(self.funds_by_account@ == old_self.funds_by_account@.update(account as int, self.funds_by_account@[account as int]));
            assert(self.model().account_funds[account as int] == with_account_amount(m, id_account, token_identifier, rest_value).account_funds[account as int]);
            assert(self.model().account_funds =~= with_account_amount(
                m,
                id_account,
                token_identifier,
                rest_value,
            ).account_funds);
            assert forall|a: int| 0 <= a < self.funds_by_account@.len() implies balances_wf(
                #[trigger] self.funds_by_account@[a]@,
            ) by {
                if a != account {
                    assert(self.funds_by_account@[a] == old_self.funds_by_account@[a]);
                }
            }
        }
        let mut effects = Vec::new();
        effects.push(Effect::Log(EventsModule::CompanyRemoveFunds { id_company: id_account }));
        assert(effects_view(effects@) =~= seq![EffectView::Log(EventView::CompanyRemoveFunds { id_company: id_account })]);
        Ok(effects)
    }

    fn require_valid_administrator(&self, company_id: u64, caller: Address) -> (r: Result<(), FactoringError>) {
        if company_id >= self.companies.len() as u64 {
            return Err(FactoringError::CompanyNotFound);
        }
        let company = &self.companies[company_id as usize];
        assert(self.model().companies[company_id as int] == company@);
        match find_address(&company.administrators, caller) {
            Some(_) => Ok(()),
            None => Err(FactoringError::CallerNotAdmin),
        }
    }
}

} // verus!
