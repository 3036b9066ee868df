//! The contract's storage, as plain values, and its mathematical model.

use vstd::prelude::*;
use crate::errors::FactoringError;
use crate::amount::Amount;
use crate::events::{effects_view, Effect, EffectView};
use crate::types::{
    Address, CallContext, Company, CompanyView, CustomerContract, Invoice, InvoiceView, TokenBalance,
    TokenId,
};

verus! {

/// Everything the contract keeps in storage.
///
/// Companies and factoring contracts are numbered from zero in the order
/// they were created; the counters of companies and contracts are the lengths
/// of `companies` and `customer_contracts`. Invoices of a contract are
/// numbered from one.
pub struct FactoringState {
    /// Addresses allowed, besides the owner, to run administrative endpoints.
    pub admin_whitelist: Vec<Address>,
    /// Tokens in which invoices and deposits may be made.
    pub allowed_tokens: Vec<TokenId>,
    /// The latest Euribor rate (basis points per year) and its timestamp.
    pub euribor_rate: Option<(u32, u64)>,
    /// Funds the protocol set aside, per token (tokens with nothing are absent).
    pub protocol_funds: Vec<TokenBalance>,
    /// Address of the Hatom controller.
    pub hatom_controller_address: Option<Address>,
    /// Registered companies; a company's id is its index.
    pub companies: Vec<Company>,
    /// Factoring contracts; a contract's id is its index.
    pub customer_contracts: Vec<CustomerContract>,
    /// Invoices of each contract, by contract id.
    pub invoices_by_contract: Vec<Vec<Invoice>>,
    /// Contracts each company signed as a client, in signing order, by company id.
    pub contracts_client_by_account: Vec<Vec<u64>>,
    /// Funds each company deposited, per token, by company id.
    pub funds_by_account: Vec<Vec<TokenBalance>>,
}

/// The contract's storage as mathematical values.
pub struct FactoringView {
    pub admins: Set<Address>,
    pub allowed_tokens: Set<TokenId>,
    pub euribor_rate: Option<(u32, u64)>,
    pub protocol_funds: Map<TokenId, nat>,
    pub hatom_controller_address: Option<Address>,
    pub companies: Seq<CompanyView>,
    pub contracts: Seq<CustomerContract>,
    pub invoices: Seq<Seq<InvoiceView>>,
    pub client_contracts: Seq<Seq<u64>>,
    pub account_funds: Seq<Map<TokenId, nat>>,
}

/// A list of balances names each token at most once and holds no empty balance.
pub open spec fn balances_wf(s: Seq<TokenBalance>) -> bool {
    &&& forall|i: int, j: int|
        0 <= i < s.len() && 0 <= j < s.len() && i != j ==> #[trigger] s[i].token != #[trigger] s[j].token
    &&& forall|i: int| 0 <= i < s.len() ==> #[trigger] s[i].amount@ > 0
}

/// A list of balances as a map from token to amount.
pub open spec fn balances_map(s: Seq<TokenBalance>) -> Map<TokenId, nat> {
    Map::new(
        |t: TokenId| exists|i: int| 0 <= i < s.len() && #[trigger] s[i].token == t,
        |t: TokenId| s[choose|i: int| 0 <= i < s.len() && #[trigger] s[i].token == t].amount@,
    )
}

/// The amount of a token in a map of balances; zero when absent.
pub open spec fn amount_in(m: Map<TokenId, nat>, t: TokenId) -> nat {
    if m.contains_key(t) {
        m[t]
    } else {
        0
    }
}

/// The balances after setting the amount of a token; a zero amount leaves
/// no entry, as a zero balance leaves storage empty.
pub open spec fn with_amount(m: Map<TokenId, nat>, t: TokenId, amount: nat) -> Map<TokenId, nat> {
    if amount == 0 {
        m.remove(t)
    } else {
        m.insert(t, amount)
    }
}

/// The caller may run administrative endpoints: it is the owner or on the
/// admin list.
pub open spec fn caller_is_admin(m: FactoringView, ctx: CallContext) -> bool {
    ctx.caller == ctx.owner || m.admins.contains(ctx.caller)
}

/// Why the caller is not an administrator of a company, if it is not.
pub open spec fn administrator_error(m: FactoringView, company_id: u64, caller: Address) -> Option<FactoringError> {
    if company_id >= m.companies.len() {
        Some(FactoringError::CompanyNotFound)
    } else if !m.companies[company_id as int].administrators.contains(caller) {
        Some(FactoringError::CallerNotAdmin)
    } else {
        None
    }
}

/// The funds a company holds in a token; zero for an unknown company.
pub open spec fn account_amount(m: FactoringView, id_account: u64, t: TokenId) -> nat {
    if id_account < m.account_funds.len() {
        amount_in(m.account_funds[id_account as int], t)
    } else {
        0
    }
}

/// How a call ends: on success the storage becomes `next` and the effects
/// are `effects`; on failure the error is `error` and the storage is left as
/// it was.
pub open spec fn transition(
    r: Result<Vec<Effect>, FactoringError>,
    before: FactoringView,
    after: FactoringView,
    error: Option<FactoringError>,
    next: FactoringView,
    effects: Seq<EffectView>,
) -> bool {
    match r {
        Ok(v) => error is None && after == next && effects_view(v@) == effects,
        Err(e) => error == Some(e) && after == before,
    }
}

/// Access to the contract's storage.
pub trait Storage: Sized {
    /// The storage is consistent.
    spec fn wf(&self) -> bool;

    /// The storage as mathematical values.
    spec fn model(&self) -> FactoringView;

    /// The company with that id, if any.
    fn companies(&self, id: u64) -> (r: Option<&Company>)
        requires
            self.wf(),
        ensures
            match r {
                Some(c) => id < self.model().companies.len() && c@ == self.model().companies[id as int],
                None => id >= self.model().companies.len(),
            },
    ;

    /// The number of registered companies, which is the id the next one gets.
    fn company_count(&self) -> (r: u64)
        requires
            self.wf(),
        ensures
            r == self.model().companies.len(),
    ;

    /// The factoring contract with that id, if any.
    fn customer_contracts(&self, id: u64) -> (r: Option<CustomerContract>)
        requires
            self.wf(),
        ensures
            match r {
                Some(c) => id < self.model().contracts.len() && c == self.model().contracts[id as int],
                None => id >= self.model().contracts.len(),
            },
    ;

    /// The number of factoring contracts, which is the id the next one gets.
    fn customer_contract_count(&self) -> (r: u64)
        requires
            self.wf(),
        ensures
            r == self.model().contracts.len(),
    ;

    /// The invoices of a contract, in upload order (none for an unknown contract).
    fn invoices_by_contract(&self, id_contract: u64) -> (r: &[Invoice])
        requires
            self.wf(),
        ensures
            id_contract < self.model().invoices.len() ==> r@.map_values(|i: Invoice| i@)
                == self.model().invoices[id_contract as int],
            id_contract >= self.model().invoices.len() ==> r@.len() == 0,
    ;

    /// The contracts a company signed as a client, in signing order (none
    /// for an unknown company).
    fn contracts_client_by_account(&self, id_account: u64) -> (r: &[u64])
        requires
            self.wf(),
        ensures
            id_account < self.model().client_contracts.len() ==> r@ == self.model().client_contracts[id_account as int],
            id_account >= self.model().client_contracts.len() ==> r@.len() == 0,
    ;

    /// The funds a company deposited in a token.
    fn funds_by_account(&self, id_account: u64, token: TokenId) -> (r: Amount)
        requires
            self.wf(),
        ensures
            r@ == account_amount(self.model(), id_account, token),
    ;

    /// The funds the protocol set aside in a token.
    fn protocol_funds(&self, token: TokenId) -> (r: Amount)
        requires
            self.wf(),
        ensures
            r@ == amount_in(self.model().protocol_funds, token),
    ;

    /// The recorded Euribor rate and its timestamp, if any.
    fn euribor_rate(&self) -> (r: Option<(u32, u64)>)
        ensures
            r == self.model().euribor_rate,
    ;

    /// The address of the Hatom controller, if set.
    fn hatom_controller_address(&self) -> (r: Option<Address>)
        ensures
            r == self.model().hatom_controller_address,
    ;

    /// Whether an address is on the admin list.
    fn is_admin_listed(&self, address: Address) -> (r: bool)
        ensures
            r == self.model().admins.contains(address),
    ;

    /// Whether a token is allowed.
    fn is_allowed_token(&self, token: TokenId) -> (r: bool)
        ensures
            r == self.model().allowed_tokens.contains(token),
    ;
}

impl Storage for FactoringState {
    open spec fn wf(&self) -> bool {
        &&& self.admin_whitelist@.no_duplicates()
        &&& self.allowed_tokens@.no_duplicates()
        &&& balances_wf(self.protocol_funds@)
        &&& self.companies@.len() <= u64::MAX
        &&& self.customer_contracts@.len() <= u64::MAX
        &&& self.invoices_by_contract@.len() == self.customer_contracts@.len()
        &&& self.contracts_client_by_account@.len() == self.companies@.len()
        &&& self.funds_by_account@.len() == self.companies@.len()
        &&& forall|c: int|
            0 <= c < self.customer_contracts@.len() ==> #[trigger] self.customer_contracts@[c].id_supplier
                < self.companies@.len()
        &&& forall|c: int|
            0 <= c < self.invoices_by_contract@.len() ==> #[trigger] self.invoices_by_contract@[c]@.len()
                <= u64::MAX
        &&& forall|a: int|
            0 <= a < self.contracts_client_by_account@.len()
                ==> #[trigger] self.contracts_client_by_account@[a]@.no_duplicates()
        &&& forall|a: int, j: int|
            0 <= a < self.contracts_client_by_account@.len() && 0 <= j
                < self.contracts_client_by_account@[a]@.len()
                ==> #[trigger] self.contracts_client_by_account@[a]@[j] < self.customer_contracts@.len()
        &&& forall|a: int|
            0 <= a < self.funds_by_account@.len() ==> balances_wf(#[trigger] self.funds_by_account@[a]@)
    }

    open spec fn model(&self) -> FactoringView {
        FactoringView {
            admins: self.admin_whitelist@.to_set(),
            allowed_tokens: self.allowed_tokens@.to_set(),
            euribor_rate: self.euribor_rate,
            protocol_funds: balances_map(self.protocol_funds@),
            hatom_controller_address: self.hatom_controller_address,
            companies: self.companies@.map_values(|c: Company| c@),
            contracts: self.customer_contracts@,
            invoices: self.invoices_by_contract@.map_values(|v: Vec<Invoice>| v@.map_values(|i: Invoice| i@)),
            client_contracts: self.contracts_client_by_account@.map_values(|v: Vec<u64>| v@),
            account_funds: self.funds_by_account@.map_values(|v: Vec<TokenBalance>| balances_map(v@)),
        }
    }

    fn companies(&self, id: u64) -> (r: Option<&Company>) {
        if id < self.companies.len() as u64 {
            Some(&self.companies[id as usize])
        } else {
            None
        }
    }

    fn company_count(&self) -> (r: u64) {
        self.companies.len() as u64
    }

    fn customer_contracts(&self, id: u64) -> (r: Option<CustomerContract>) {
        if id < self.customer_contracts.len() as u64 {
            Some(self.customer_contracts[id as usize])
        } else {
            None
        }
    }

    fn customer_contract_count(&self) -> (r: u64) {
        self.customer_contracts.len() as u64
    }

    fn invoices_by_contract(&self, id_contract: u64) -> (r: &[Invoice]) {
        if id_contract < self.invoices_by_contract.len() as u64 {
            let v = &self.invoices_by_contract[id_contract as usize];
            assert(v@.map_values(|i: Invoice| i@) == self.model().invoices[id_contract as int]);
            v.as_slice()
        } else {
            &[]
        }
    }

    fn contracts_client_by_account(&self, id_account: u64) -> (r: &[u64]) {
        if id_account < self.contracts_client_by_account.len() as u64 {
            self.contracts_client_by_account[id_account as usize].as_slice()
        } else {
            &[]
        }
    }

    fn funds_by_account(&self, id_account: u64, token: TokenId) -> (r: Amount) {
        if id_account < self.funds_by_account.len() as u64 {
            let v = &self.funds_by_account[id_account as usize];
            assert(self.model().account_funds[id_account as int] == balances_map(v@));
            balance_of(v, token)
        } else {
            Amount::zero()
        }
    }

    fn protocol_funds(&self, token: TokenId) -> (r: Amount) {
        balance_of(&self.protocol_funds, token)
    }

    fn euribor_rate(&self) -> (r: Option<(u32, u64)>) {
        self.euribor_rate
    }

    fn hatom_controller_address(&self) -> (r: Option<Address>) {
        self.hatom_controller_address
    }

    fn is_admin_listed(&self, address: Address) -> (r: bool) {
        find_address(&self.admin_whitelist, address).is_some()
    }

    fn is_allowed_token(&self, token: TokenId) -> (r: bool) {
        find_token(&self.allowed_tokens, token).is_some()
    }
}

impl FactoringState {
    /// Empty storage, as the contract's `init` leaves it.
    pub fn new() -> (r: FactoringState)
        ensures
            r.wf(),
            r.model().admins == Set::<Address>::empty(),
            r.model().allowed_tokens == Set::<TokenId>::empty(),
            r.model().euribor_rate is None,
            r.model().protocol_funds == Map::<TokenId, nat>::empty(),
            r.model().hatom_controller_address is None,
            r.model().companies.len() == 0,
            r.model().contracts.len() == 0,
            r.model().invoices.len() == 0,
            r.model().client_contracts.len() == 0,
            r.model().account_funds.len() == 0,
    {
        let r = FactoringState {
            admin_whitelist: Vec::new(),
            allowed_tokens: Vec::new(),
            euribor_rate: None,
            protocol_funds: Vec::new(),
            hatom_controller_address: None,
            companies: Vec::new(),
            customer_contracts: Vec::new(),
            invoices_by_contract: Vec::new(),
            contracts_client_by_account: Vec::new(),
            funds_by_account: Vec::new(),
        };
        assert(r.model().admins =~= Set::<Address>::empty());
        assert(r.model().allowed_tokens =~= Set::<TokenId>::empty());
        assert(r.model().protocol_funds =~= Map::<TokenId, nat>::empty());
        r
    }
}

impl FactoringState {
    /// Checks that storage read back from the chain is consistent: the
    /// lists that stand for sets hold no value twice, balances are positive
    /// and name each token once, the per-company and per-contract lists match
    /// the companies and contracts, and every reference to a company or a
    /// contract points at one that exists.
    #[verifier::loop_isolation(false)]
    pub fn is_well_formed(&self) -> (r: bool)
        ensures
            r == self.wf(),
    {
        if !addresses_distinct(&self.admin_whitelist) || !tokens_distinct(&self.allowed_tokens)
            || !balances_consistent(&self.protocol_funds) {
            return false;
        }
        let n_companies = self.companies.len();
        let n_contracts = self.customer_contracts.len();
        if self.invoices_by_contract.len() != n_contracts || self.contracts_client_by_account.len() != n_companies
            || self.funds_by_account.len() != n_companies {
            return false;
        }
        let mut c: usize = 0;
        while c < n_contracts
            invariant
                n_companies == self.companies@.len(),
                n_contracts == self.customer_contracts@.len(),
                c <= n_contracts,
                forall|k: int| 0 <= k < c ==> #[trigger] self.customer_contracts@[k].id_supplier < n_companies,
                forall|k: int| 0 <= k < c ==> #[trigger] self.invoices_by_contract@[k]@.len() <= u64::MAX,
            decreases n_contracts - c,
        {
            if self.customer_contracts[c].id_supplier >= n_companies as u64 {
                return false;
            }
            let n_invoices = self.invoices_by_contract[c].len();
            assert(n_invoices <= u64::MAX);
            c = c + 1;
        }
        let mut a: usize = 0;
        while a < n_companies
            invariant
                n_companies == self.companies@.len(),
                n_contracts == self.customer_contracts@.len(),
                self.contracts_client_by_account@.len() == n_companies,
                self.funds_by_account@.len() == n_companies,
                a <= n_companies,
                forall|k: int| 0 <= k < a ==> #[trigger] self.contracts_client_by_account@[k]@.no_duplicates(),
                forall|k: int, j: int|
                    0 <= k < a && 0 <= j < self.contracts_client_by_account@[k]@.len()
                        ==> #[trigger] self.contracts_client_by_account@[k]@[j] < n_contracts,
                forall|k: int| 0 <= k < a ==> balances_wf(#[trigger] self.funds_by_account@[k]@),
            decreases n_companies - a,
        {
            let ids = &self.contracts_client_by_account[a];
            if !ids_distinct(ids) || !balances_consistent(&self.funds_by_account[a]) {
                proof {
                    assert(self.contracts_client_by_account@[a as int] == *ids);
                }
                return false;
            }
            let mut j: usize = 0;
            while j < ids.len()
                invariant
                    j <= ids@.len(),
                    forall|i: int| 0 <= i < j ==> #[trigger] ids@[i] < n_contracts,
                decreases ids@.len() - j,
            {
                if ids[j] >= n_contracts as u64 {
                    return false;
                }
                j = j + 1;
            }
            a = a + 1;
        }
        true
    }
}

/// Whether no address occurs twice in a list.
fn addresses_distinct(v: &Vec<Address>) -> (r: bool)
    ensures
        r == v@.no_duplicates(),
{
    let mut i: usize = 0;
    while i < v.len()
        invariant
            i <= v@.len(),
            forall|a: int, b: int| 0 <= a < b < i ==> v@[a] != v@[b],
        decreases v@.len() - i,
    {
        let mut j: usize = 0;
        while j < i
            invariant
                i < v@.len(),
                j <= i,
                forall|b: int| 0 <= b < j ==> v@[b] != v@[i as int],
            decreases i - j,
        {
            if v[j] == v[i] {
                return false;
            }
            j = j + 1;
        }
        i = i + 1;
    }
    true
}

/// Whether no token occurs twice in a list.
fn tokens_distinct(v: &Vec<TokenId>) -> (r: bool)
    ensures
        r == v@.no_duplicates(),
{
    let mut i: usize = 0;
    while i < v.len()
        invariant
            i <= v@.len(),
            forall|a: int, b: int| 0 <= a < b < i ==> v@[a] != v@[b],
        decreases v@.len() - i,
    {
        let mut j: usize = 0;
        while j < i
            invariant
                i < v@.len(),
                j <= i,
                forall|b: int| 0 <= b < j ==> v@[b] != v@[i as int],
            decreases i - j,
        {
            if v[j] == v[i] {
                return false;
            }
            j = j + 1;
        }
        i = i + 1;
    }
    true
}

/// Whether no id occurs twice in a list.
fn ids_distinct(v: &Vec<u64>) -> (r: bool)
    ensures
        r == v@.no_duplicates(),
{
    let mut i: usize = 0;
    while i < v.len()
        invariant
            i <= v@.len(),
            forall|a: int, b: int| 0 <= a < b < i ==> v@[a] != v@[b],
        decreases v@.len() - i,
    {
        let mut j: usize = 0;
        while j < i
            invariant
                i < v@.len(),
                j <= i,
                forall|b: int| 0 <= b < j ==> v@[b] != v@[i as int],
            decreases i - j,
        {
            if v[j] == v[i] {
                return false;
            }
            j = j + 1;
        }
        i = i + 1;
    }
    true
}

/// Whether a list of balances names each token at most once and holds no
/// empty balance.
fn balances_consistent(v: &Vec<TokenBalance>) -> (r: bool)
    ensures
        r == balances_wf(v@),
{
    let mut i: usize = 0;
    while i < v.len()
        invariant
            i <= v@.len(),
            forall|a: int, b: int| 0 <= a < i && 0 <= b < i && a != b ==> v@[a].token != v@[b].token,
            forall|a: int| 0 <= a < i ==> #[trigger] v@[a].amount@ > 0,
        decreases v@.len() - i,
    {
        if v[i].amount.is_zero() {
            return false;
        }
        let mut j: usize = 0;
        while j < i
            invariant
                i < v@.len(),
                j <= i,
                forall|b: int| 0 <= b < j ==> v@[b].token != v@[i as int].token,
            decreases i - j,
        {
            if v[j].token == v[i].token {
                return false;
            }
            j = j + 1;
        }
        i = i + 1;
    }
    true
}

// ---------------------------------------------------------------------------
// Lists of balances.

/// The entry of a token in a consistent list of balances gives its amount.
pub proof fn lemma_balances_at(s: Seq<TokenBalance>, i: int)
    requires
        balances_wf(s),
        0 <= i < s.len(),
    ensures
        balances_map(s).contains_key(s[i].token),
        balances_map(s)[s[i].token] == s[i].amount@,
{
    let t = s[i].token;
    assert(exists|k: int| 0 <= k < s.len() && #[trigger] s[k].token == t);
    let k = choose|k: int| 0 <= k < s.len() && #[trigger] s[k].token == t;
    assert(k == i);
}

/// A token that no entry names is absent from the map.
pub proof fn lemma_balances_absent(s: Seq<TokenBalance>, t: TokenId)
    requires
        forall|i: int| 0 <= i < s.len() ==> #[trigger] s[i].token != t,
    ensures
        !balances_map(s).contains_key(t),
{
}

/// Finds the entry of a token in a list of balances.
pub fn find_balance(v: &Vec<TokenBalance>, t: TokenId) -> (r: Option<usize>)
    ensures
        match r {
            Some(i) => i < v@.len() && v@[i as int].token == t,
            None => forall|i: int| 0 <= i < v@.len() ==> #[trigger] v@[i].token != t,
        },
{
    let mut i: usize = 0;
    while i < v.len()
        invariant
            i <= v@.len(),
            forall|k: int| 0 <= k < i ==> #[trigger] v@[k].token != t,
        decreases v@.len() - i,
    {
        if v[i].token == t {
            return Some(i);
        }
        i = i + 1;
    }
    None
}

/// The amount of a token in a consistent list of balances.
pub fn balance_of(v: &Vec<TokenBalance>, t: TokenId) -> (r: Amount)
    requires
        balances_wf(v@),
    ensures
        r@ == amount_in(balances_map(v@), t),
{
    match find_balance(v, t) {
        Some(i) => {
            proof {
                lemma_balances_at(v@, i as int);
            }
            v[i].amount.copy()
        },
        None => {
            proof {
                lemma_balances_absent(v@, t);
            }
            Amount::zero()
        },
    }
}

/// Sets the amount of a token in a consistent list of balances; a zero
/// amount removes the token's entry.
pub fn set_balance(v: &mut Vec<TokenBalance>, t: TokenId, amount: Amount)
    requires
        balances_wf(old(v)@),
    ensures
        balances_wf(final(v)@),
        balances_map(final(v)@) == with_amount(balances_map(old(v)@), t, amount@),
{
    let ghost s = v@;
    let ghost a = amount@;
    match find_balance(v, t) {
        Some(i) => {
            if amount.is_zero() {
                v.remove(i);
                proof {
                    let s2 = v@;
                    assert(s2 =~= s.remove(i as int));
                    assert forall|k: int| 0 <= k < s2.len() implies #[trigger] s2[k].token != t by {
                        if k < i {
                            assert(s2[k] == s[k]);
                        } else {
                            assert(s2[k] == s[k + 1]);
                        }
                    }
                    assert forall|x: TokenId| #[trigger] balances_map(s2).contains_key(x) <==> balances_map(s).remove(t).contains_key(x) by {
                        if balances_map(s2).contains_key(x) {
                            let k = choose|k: int| 0 <= k < s2.len() && #[trigger] s2[k].token == x;
                            if k < i { assert(s[k].token == x); } else { assert(s[k + 1].token == x); }
                        }
                        if balances_map(s).remove(t).contains_key(x) {
                            let k = choose|k: int| 0 <= k < s.len() && #[trigger] s[k].token == x;
                            assert(k != i);
                            if k < i { assert(s2[k].token == x); } else { assert(s2[k - 1].token == x); }
                        }
                    }
                    assert forall|x: TokenId| #[trigger] balances_map(s2).contains_key(x) implies balances_map(s2)[x] == balances_map(s).remove(t)[x] by {
                        let k = choose|k: int| 0 <= k < s2.len() && #[trigger] s2[k].token == x;
                        lemma_balances_at(s2, k);
                        if k < i {
                            lemma_balances_at(s, k);
                        } else {
                            lemma_balances_at(s, k + 1);
                        }
                    }
                    assert(balances_map(s2) =~= balances_map(s).remove(t));
                }
            } else {
                v.set(i, TokenBalance { token: t, amount });
                proof {
                    let s2 = v@;
                    assert(s2.len() == s.len());
                    assert(s2[i as int].token == t && s2[i as int].amount@ == a);
                    assert(forall|k: int| 0 <= k < s.len() && k != i ==> s2[k] == s[k]);
                    assert forall|p: int, q: int|
                        0 <= p < s2.len() && 0 <= q < s2.len() && p != q implies #[trigger] s2[p].token != #[trigger] s2[q].token by {
                        if p != i && q != i {
                            assert(s2[p] == s[p] && s2[q] == s[q]);
                        } else if p == i {
                            assert(s2[q] == s[q]);
                            assert(s[i as int].token == t);
                        } else {
                            assert(s2[p] == s[p]);
                            assert(s[i as int].token == t);
                        }
                    }
                    assert forall|k: int| 0 <= k < s2.len() implies #[trigger] s2[k].amount@ > 0 by {
                        if k != i {
                            assert(s2[k] == s[k]);
                        }
                    }
                    assert forall|x: TokenId| #[trigger] balances_map(s2).contains_key(x) <==> balances_map(s).insert(t, a).contains_key(x) by {
                        if balances_map(s2).contains_key(x) {
                            let k = choose|k: int| 0 <= k < s2.len() && #[trigger] s2[k].token == x;
                            if k != i { assert(s[k].token == x); }
                        }
                        if balances_map(s).contains_key(x) {
                            let k = choose|k: int| 0 <= k < s.len() && #[trigger] s[k].token == x;
                            if k != i { assert(s2[k].token == x); } else { assert(s2[i as int].token == x); }
                        }
                        if x == t {
                            assert(s2[i as int].token == x);
                        }
                    }
                    assert forall|x: TokenId| #[trigger] balances_map(s2).contains_key(x) implies balances_map(s2)[x] == balances_map(s).insert(t, a)[x] by {
                        let k = choose|k: int| 0 <= k < s2.len() && #[trigger] s2[k].token == x;
                        lemma_balances_at(s2, k);
                        if k != i {
                            lemma_balances_at(s, k);
                        }
                    }
                    assert(balances_map(s2) =~= balances_map(s).insert(t, a));
                }
            }
        },
        None => {
            if !amount.is_zero() {
                v.push(TokenBalance { token: t, amount });
                proof {
                    let s2 = v@;
                    assert(s2.len() == s.len() + 1);
                    assert(s2[s.len() as int].token == t && s2[s.len() as int].amount@ == a);
                    assert(forall|k: int| 0 <= k < s.len() ==> s2[k] == s[k]);
                    assert forall|p: int, q: int|
                        0 <= p < s2.len() && 0 <= q < s2.len() && p != q implies #[trigger] s2[p].token != #[trigger] s2[q].token by {
                        if p < s.len() && q < s.len() {
                            assert(s2[p] == s[p] && s2[q] == s[q]);
                        } else if p < s.len() {
                            assert(s2[p] == s[p]);
                        } else {
                            assert(s2[q] == s[q]);
                        }
                    }
                    assert forall|k: int| 0 <= k < s2.len() implies #[trigger] s2[k].amount@ > 0 by {
                        if k < s.len() {
                            assert(s2[k] == s[k]);
                        }
                    }
                    assert forall|x: TokenId| #[trigger] balances_map(s2).contains_key(x) <==> balances_map(s).insert(t, a).contains_key(x) by {
                        if balances_map(s2).contains_key(x) {
                            let k = choose|k: int| 0 <= k < s2.len() && #[trigger] s2[k].token == x;
                            if k < s.len() { assert(s[k].token == x); }
                        }
                        if balances_map(s).contains_key(x) {
                            let k = choose|k: int| 0 <= k < s.len() && #[trigger] s[k].token == x;
                            assert(s2[k].token == x);
                        }
                        if x == t {
                            assert(s2[s.len() as int].token == x);
                        }
                    }
                    assert forall|x: TokenId| #[trigger] balances_map(s2).contains_key(x) implies balances_map(s2)[x] == balances_map(s).insert(t, a)[x] by {
                        let k = choose|k: int| 0 <= k < s2.len() && #[trigger] s2[k].token == x;
                        lemma_balances_at(s2, k);
                        if k < s.len() {
                            lemma_balances_at(s, k);
                        }
                    }
                    assert(balances_map(s2) =~= balances_map(s).insert(t, a));
                }
            } else {
                proof {
                    lemma_balances_absent(s, t);
                    assert(balances_map(s) =~= balances_map(s).remove(t));
                }
            }
        },
    }
}

// ---------------------------------------------------------------------------
// Sets held as lists without duplicates.

/// Finds an address in a list.
pub fn find_address(v: &Vec<Address>, a: Address) -> (r: Option<usize>)
    ensures
        match r {
            Some(i) => i < v@.len() && v@[i as int] == a,
            None => !v@.contains(a),
        },
{
    let mut i: usize = 0;
    while i < v.len()
        invariant
            i <= v@.len(),
            forall|k: int| 0 <= k < i ==> #[trigger] v@[k] != a,
        decreases v@.len() - i,
    {
        if v[i] == a {
            return Some(i);
        }
        i = i + 1;
    }
    None
}

/// Finds a token in a list.
pub fn find_token(v: &Vec<TokenId>, t: TokenId) -> (r: Option<usize>)
    ensures
        match r {
            Some(i) => i < v@.len() && v@[i as int] == t,
            None => !v@.contains(t),
        },
{
    let mut i: usize = 0;
    while i < v.len()
        invariant
            i <= v@.len(),
            forall|k: int| 0 <= k < i ==> #[trigger] v@[k] != t,
        decreases v@.len() - i,
    {
        if v[i] == t {
            return Some(i);
        }
        i = i + 1;
    }
    None
}

/// Removing the only occurrence of a value from a list without duplicates
/// removes it from the list's set.
pub proof fn lemma_remove_from_set<T>(s: Seq<T>, i: int)
    requires
        s.no_duplicates(),
        0 <= i < s.len(),
    ensures
        s.remove(i).no_duplicates(),
        s.remove(i).to_set() == s.to_set().remove(s[i]),
{
    let s2 = s.remove(i);
    assert forall|x: T| #[trigger] s2.to_set().contains(x) <==> s.to_set().remove(s[i]).contains(x) by {
        if s2.contains(x) {
            let k = choose|k: int| 0 <= k < s2.len() && s2[k] == x;
            if k < i {
                assert(s[k] == x);
            } else {
                assert(s[k + 1] == x);
            }
        }
        if s.contains(x) && x != s[i] {
            let k = choose|k: int| 0 <= k < s.len() && s[k] == x;
            if k < i {
                assert(s2[k] == x);
            } else {
                assert(s2[k - 1] == x);
            }
        }
    }
    assert(s2.to_set() =~= s.to_set().remove(s[i]));
}

/// Appending a value absent from a list without duplicates adds it to the
/// list's set.
pub proof fn lemma_push_to_set<T>(s: Seq<T>, x: T)
    requires
        s.no_duplicates(),
        !s.contains(x),
    ensures
        s.push(x).no_duplicates(),
        s.push(x).to_set() == s.to_set().insert(x),
{
    let s2 = s.push(x);
    assert forall|y: T| #[trigger] s2.to_set().contains(y) <==> s.to_set().insert(x).contains(y) by {
        if s2.contains(y) {
            let k = choose|k: int| 0 <= k < s2.len() && s2[k] == y;
            if k < s.len() {
                assert(s[k] == y);
            }
        }
        if s.contains(y) {
            let k = choose|k: int| 0 <= k < s.len() && s[k] == y;
            assert(s2[k] == y);
        }
        if y == x {
            assert(s2[s.len() as int] == y);
        }
    }
    assert(s2.to_set() =~= s.to_set().insert(x));
}

/// Adds an address to a set held as a list.
pub fn insert_address(v: &mut Vec<Address>, a: Address)
    requires
        old(v)@.no_duplicates(),
    ensures
        final(v)@.no_duplicates(),
        final(v)@.to_set() == old(v)@.to_set().insert(a),
{
    match find_address(v, a) {
        Some(i) => {
            assert(v@.to_set() =~= v@.to_set().insert(a));
        },
        None => {
            proof {
                lemma_push_to_set(v@, a);
            }
            v.push(a);
        },
    }
}

/// Removes an address from a set held as a list.
pub fn remove_address(v: &mut Vec<Address>, a: Address)
    requires
        old(v)@.no_duplicates(),
    ensures
        final(v)@.no_duplicates(),
        final(v)@.to_set() == old(v)@.to_set().remove(a),
{
    match find_address(v, a) {
        Some(i) => {
            proof {
                lemma_remove_from_set(v@, i as int);
            }
            v.remove(i);
        },
        None => {
            assert(v@.to_set() =~= v@.to_set().remove(a));
        },
    }
}

/// Adds a token to a set held as a list.
pub fn insert_token(v: &mut Vec<TokenId>, t: TokenId)
    requires
        old(v)@.no_duplicates(),
    ensures
        final(v)@.no_duplicates(),
        final(v)@.to_set() == old(v)@.to_set().insert(t),
{
    match find_token(v, t) {
        Some(i) => {
            assert(v@.to_set() =~= v@.to_set().insert(t));
        },
        None => {
            proof {
                lemma_push_to_set(v@, t);
            }
            v.push(t);
        },
    }
}

/// Removes a token from a set held as a list.
pub fn remove_token(v: &mut Vec<TokenId>, t: TokenId)
    requires
        old(v)@.no_duplicates(),
    ensures
        final(v)@.no_duplicates(),
        final(v)@.to_set() == old(v)@.to_set().remove(t),
{
    match find_token(v, t) {
        Some(i) => {
            proof {
                lemma_remove_from_set(v@, i as int);
            }
            v.remove(i);
        },
        None => {
            assert(v@.to_set() =~= v@.to_set().remove(t));
        },
    }
}

} // verus!
