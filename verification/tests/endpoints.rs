use factoring::account_manager::AccountManagerModule;
use factoring::amount::Amount;
use factoring::admin_config::AdminConfigModule;
use factoring::errors::FactoringError;
use factoring::events::{Effect, EventsModule, HatomProxyModule};
use factoring::factoring::Factoring;
use factoring::stable_farming::StableFarmingModule;
use factoring::storage::{FactoringState, Storage};
use factoring::types::{Address, CallContext, CustomerContract, Payment, Status, TokenId};

fn amt(x: u128) -> Amount {
    Amount::from_u128(x)
}

fn addr(n: u128) -> Address {
    Address { hi: 0, lo: n }
}

fn usdc() -> TokenId {
    TokenId { len: 4, hi: 0, lo: 0x5553_4443 }
}

fn egld() -> TokenId {
    TokenId { len: 4, hi: 0, lo: 0x4547_4c44 }
}

const OWNER: u128 = 1;
const ADMIN: u128 = 2;
const SUPPLIER_ADMIN: u128 = 10;
const CLIENT_ADMIN: u128 = 20;
const STRANGER: u128 = 99;

fn ctx(caller: u128) -> CallContext {
    CallContext { caller: addr(caller), owner: addr(OWNER), block_timestamp: 1_000_000 }
}

fn ctx_at(caller: u128, now: u64) -> CallContext {
    CallContext { caller: addr(caller), owner: addr(OWNER), block_timestamp: now }
}

/// A state with two companies (supplier 0, client 1), an allowed token,
/// a Euribor rate and one contract between them.
fn setup() -> FactoringState {
    let mut s = FactoringState::new();
    s.add_allowed_tokens(&ctx(OWNER), usdc()).unwrap();
    s.add_euribor_rate(&ctx(OWNER), 100, 365).unwrap();
    s.add_company(&ctx(OWNER), 1000, vec![addr(SUPPLIER_ADMIN)], true, addr(11)).unwrap();
    s.add_company(&ctx(OWNER), 2000, vec![addr(CLIENT_ADMIN)], false, addr(21)).unwrap();
    s.create_factoring_contract(&ctx(SUPPLIER_ADMIN), 0, 1).unwrap();
    s
}

fn with_invoice(amount: u128) -> FactoringState {
    let mut s = setup();
    s.sign_contract(&ctx(CLIENT_ADMIN), 0).unwrap();
    s.add_invoice(&ctx(SUPPLIER_ADMIN), 0, vec![0xab, 0xcd], amt(amount), 0, 86_400 * 30, usdc()).unwrap();
    s
}

fn err(r: Result<Vec<Effect>, FactoringError>) -> FactoringError {
    match r {
        Ok(_) => panic!("expected an error"),
        Err(e) => e,
    }
}

#[test]
fn new_state_is_empty() {
    let s = FactoringState::new();
    assert_eq!(s.company_count(), 0);
    assert_eq!(s.customer_contract_count(), 0);
    assert_eq!(s.euribor_rate(), None);
    assert_eq!(s.hatom_controller_address(), None);
    assert_eq!(s.invoices_by_contract(0).len(), 0);
}

#[test]
fn add_company_assigns_sequential_ids_and_defaults() {
    let mut s = FactoringState::new();
    let effects = s.add_company(&ctx(OWNER), 77, vec![addr(5)], true, addr(6)).unwrap();
    assert_eq!(effects.len(), 1);
    match &effects[0] {
        Effect::Log(EventsModule::CompanyCreate { id_offchain, id_company, score, fee }) => {
            assert_eq!((*id_offchain, *id_company, *score, *fee), (77, 0, 100, 100));
        }
        _ => panic!("unexpected effect"),
    }
    let effects = s.add_company(&ctx(OWNER), 78, vec![], false, addr(7)).unwrap();
    match &effects[0] {
        Effect::Log(EventsModule::CompanyCreate { id_company, .. }) => assert_eq!(*id_company, 1),
        _ => panic!("unexpected effect"),
    }
    assert_eq!(s.company_count(), 2);
    let c = s.companies(0).unwrap();
    assert_eq!(c.fee, 100);
    assert_eq!(c.reliability_score, 100);
    assert_eq!(c.administrators, vec![addr(5)]);
    assert_eq!(c.withdraw_address, addr(6));
    assert!(s.companies(2).is_none());
}

#[test]
fn only_owner_or_listed_admin_may_add_company() {
    let mut s = FactoringState::new();
    assert_eq!(err(s.add_company(&ctx(STRANGER), 1, vec![], false, addr(3))), FactoringError::ItemNotWhitelisted);
    assert_eq!(s.company_count(), 0);
    s.add_user_to_admin_list(&ctx(OWNER), addr(ADMIN)).unwrap();
    assert!(s.is_admin_listed(addr(ADMIN)));
    s.add_company(&ctx(ADMIN), 1, vec![], false, addr(3)).unwrap();
    assert_eq!(s.company_count(), 1);
    s.remove_user_from_admin_list(&ctx(OWNER), addr(ADMIN)).unwrap();
    assert!(!s.is_admin_listed(addr(ADMIN)));
    assert_eq!(err(s.add_company(&ctx(ADMIN), 1, vec![], false, addr(3))), FactoringError::ItemNotWhitelisted);
}

#[test]
fn contract_creation_requires_supplier_admin() {
    let mut s = setup();
    assert_eq!(err(s.create_factoring_contract(&ctx(CLIENT_ADMIN), 0, 1)), FactoringError::CallerNotAdmin);
    assert_eq!(err(s.create_factoring_contract(&ctx(SUPPLIER_ADMIN), 5, 1)), FactoringError::CompanyNotFound);
    let effects = s.create_factoring_contract(&ctx(SUPPLIER_ADMIN), 0, 42).unwrap();
    match &effects[0] {
        Effect::Log(EventsModule::ContractCreate { id_supplier, id_client, id_contract }) => {
            assert_eq!((*id_supplier, *id_client, *id_contract), (0, 42, 1));
        }
        _ => panic!("unexpected effect"),
    }
    assert_eq!(s.customer_contracts(1), Some(CustomerContract { id_supplier: 0, id_client: 42, is_signed: false }));
}

#[test]
fn sign_contract_lists_it_once_for_the_client() {
    let mut s = setup();
    assert_eq!(err(s.sign_contract(&ctx(SUPPLIER_ADMIN), 0)), FactoringError::CallerNotAdmin);
    assert_eq!(err(s.sign_contract(&ctx(CLIENT_ADMIN), 3)), FactoringError::ContractNotFound);
    s.sign_contract(&ctx(CLIENT_ADMIN), 0).unwrap();
    s.sign_contract(&ctx(CLIENT_ADMIN), 0).unwrap();
    assert!(s.customer_contracts(0).unwrap().is_signed);
    assert_eq!(s.contracts_client_by_account(1), &[0u64][..]);
    assert_eq!(s.contracts_client_by_account(0).len(), 0);
}

#[test]
fn company_administrators_can_be_added() {
    let mut s = setup();
    assert_eq!(err(s.add_company_administrator(&ctx(STRANGER), 0, addr(12))), FactoringError::CallerNotAdmin);
    s.add_company_administrator(&ctx(SUPPLIER_ADMIN), 0, addr(12)).unwrap();
    assert_eq!(s.companies(0).unwrap().administrators, vec![addr(SUPPLIER_ADMIN), addr(12)]);
    s.create_factoring_contract(&ctx(12), 0, 1).unwrap();
}

#[test]
fn account_funds_deposit_and_withdraw() {
    let mut s = setup();
    let pay = || Payment { token: usdc(), amount: amt(500) };
    assert_eq!(err(s.add_account_funds(&ctx(CLIENT_ADMIN), Payment { token: egld(), amount: amt(5) }, 1)), FactoringError::ItemNotWhitelisted);
    assert_eq!(err(s.add_account_funds(&ctx(SUPPLIER_ADMIN), pay(), 1)), FactoringError::CallerNotAdmin);
    s.add_account_funds(&ctx(CLIENT_ADMIN), pay(), 1).unwrap();
    s.add_account_funds(&ctx(CLIENT_ADMIN), pay(), 1).unwrap();
    assert_eq!(s.funds_by_account(1, usdc()), amt(1000));
    assert_eq!(err(s.remove_account_funds(&ctx(CLIENT_ADMIN), 1, usdc(), amt(1001))), FactoringError::NotEnoughFunds);
    s.remove_account_funds(&ctx(CLIENT_ADMIN), 1, usdc(), amt(400)).unwrap();
    assert_eq!(s.funds_by_account(1, usdc()), amt(600));
    // deposits are not bounded by any machine integer
    s.add_account_funds(&ctx(CLIENT_ADMIN), Payment { token: usdc(), amount: amt(u128::MAX) }, 1).unwrap();
    s.add_account_funds(&ctx(CLIENT_ADMIN), Payment { token: usdc(), amount: amt(u128::MAX) }, 1).unwrap();
    let expected = amt(u128::MAX).mul_small(2).add(&amt(600));
    assert_eq!(s.funds_by_account(1, usdc()), expected);
    assert!(s.funds_by_account(1, usdc()).limbs.len() > 2);
}

#[test]
fn protocol_funds_add_and_remove() {
    let mut s = setup();
    let pay = Payment { token: usdc(), amount: amt(300) };
    assert_eq!(err(s.add_protocol_funds(&ctx(STRANGER), Payment { token: usdc(), amount: amt(300) })), FactoringError::ItemNotWhitelisted);
    assert_eq!(err(s.add_protocol_funds(&ctx(OWNER), Payment { token: egld(), amount: amt(1) })), FactoringError::ItemNotWhitelisted);
    let effects = s.add_protocol_funds(&ctx(OWNER), pay).unwrap();
    assert!(matches!(effects[0], Effect::Log(EventsModule::ScAddFunds)));
    assert_eq!(s.protocol_funds(usdc()), amt(300));
    assert_eq!(err(s.remove_protocol_funds(&ctx(OWNER), usdc(), amt(301))), FactoringError::NotEnoughFunds);
    s.remove_protocol_funds(&ctx(OWNER), usdc(), amt(300)).unwrap();
    assert_eq!(s.protocol_funds(usdc()), amt(0));
}

#[test]
fn euribor_rate_timestamps_must_increase() {
    let mut s = FactoringState::new();
    assert_eq!(err(s.add_euribor_rate(&ctx(STRANGER), 10, 1)), FactoringError::ItemNotWhitelisted);
    s.add_euribor_rate(&ctx(OWNER), 10, 250).unwrap();
    assert_eq!(s.euribor_rate(), Some((250, 10)));
    assert_eq!(err(s.add_euribor_rate(&ctx(OWNER), 10, 300)), FactoringError::TimestampMustBeHigher);
    assert_eq!(err(s.add_euribor_rate(&ctx(OWNER), 9, 300)), FactoringError::TimestampMustBeHigher);
    s.add_euribor_rate(&ctx(OWNER), 11, 300).unwrap();
    assert_eq!(s.euribor_rate(), Some((300, 11)));
}

#[test]
fn allowed_tokens_add_and_remove() {
    let mut s = FactoringState::new();
    s.add_allowed_tokens(&ctx(OWNER), egld()).unwrap();
    assert!(s.is_allowed_token(egld()));
    let effects = s.remove_allowed_tokens(&ctx(OWNER), egld()).unwrap();
    assert!(matches!(effects[0], Effect::Log(EventsModule::ScRemoveToken { .. })));
    assert!(!s.is_allowed_token(egld()));
}

#[test]
fn add_invoice_reports_one_based_index() {
    let mut s = setup();
    assert_eq!(err(s.add_invoice(&ctx(SUPPLIER_ADMIN), 0, vec![1], amt(10), 0, 1, egld())), FactoringError::ItemNotWhitelisted);
    assert_eq!(err(s.add_invoice(&ctx(SUPPLIER_ADMIN), 7, vec![1], amt(10), 0, 1, usdc())), FactoringError::ContractNotFound);
    assert_eq!(err(s.add_invoice(&ctx(CLIENT_ADMIN), 0, vec![1], amt(10), 0, 1, usdc())), FactoringError::CallerNotAdmin);
    let effects = s.add_invoice(&ctx(SUPPLIER_ADMIN), 0, vec![1, 2, 3], amt(10_000), 5, 6, usdc()).unwrap();
    match &effects[0] {
        Effect::Log(EventsModule::InvoiceAdd { id_contract, hash, amount, due_date, invoice_id, timestamp }) => {
            assert_eq!((*id_contract, *due_date, *invoice_id, *timestamp), (0, 6, 1, 1_000_000));
            assert_eq!(*amount, amt(10_000));
            assert_eq!(hash, &vec![1, 2, 3]);
        }
        _ => panic!("unexpected effect"),
    }
    let invoices = s.invoices_by_contract(0);
    assert_eq!(invoices.len(), 1);
    assert_eq!(invoices[0].status, Status::PendingValidation);
    assert_eq!(invoices[0].euribor_rate, 365);
    assert_eq!(invoices[0].hash, vec![1, 2, 3]);
    assert_eq!(invoices[0].payed_date, None);
}

#[test]
fn add_invoice_needs_a_euribor_rate() {
    let mut s = FactoringState::new();
    s.add_allowed_tokens(&ctx(OWNER), usdc()).unwrap();
    s.add_company(&ctx(OWNER), 1, vec![addr(SUPPLIER_ADMIN)], true, addr(11)).unwrap();
    s.create_factoring_contract(&ctx(SUPPLIER_ADMIN), 0, 0).unwrap();
    assert_eq!(err(s.add_invoice(&ctx(SUPPLIER_ADMIN), 0, vec![], amt(1), 0, 1, usdc())), FactoringError::EuriborRateNotSet);
}

#[test]
fn confirm_invoice_checks_client_score_index_and_status() {
    let mut s = with_invoice(10_000);
    assert_eq!(err(s.confirm_invoice(&ctx(SUPPLIER_ADMIN), 0, 1, Status::Valid)), FactoringError::CallerNotAdmin);
    assert_eq!(err(s.confirm_invoice(&ctx(CLIENT_ADMIN), 0, 0, Status::Valid)), FactoringError::InvoiceNotFound);
    assert_eq!(err(s.confirm_invoice(&ctx(CLIENT_ADMIN), 0, 2, Status::Valid)), FactoringError::InvoiceNotFound);
    s.confirm_invoice(&ctx(CLIENT_ADMIN), 0, 1, Status::Valid).unwrap();
    assert_eq!(s.invoices_by_contract(0)[0].status, Status::Valid);
    assert_eq!(err(s.confirm_invoice(&ctx(CLIENT_ADMIN), 0, 1, Status::Refused)), FactoringError::InvoiceConfirmWrongStatus);
}

#[test]
fn confirm_invoice_refused_for_low_score_client() {
    let mut s = setup();
    s.sign_contract(&ctx(CLIENT_ADMIN), 0).unwrap();
    for _ in 0..21 {
        s.add_invoice(&ctx(SUPPLIER_ADMIN), 0, vec![], amt(1), 0, 10, usdc()).unwrap();
    }
    s.calculate_reliability_score(&ctx_at(STRANGER, 11), 1).unwrap();
    assert_eq!(s.companies(1).unwrap().reliability_score, 79);
    assert_eq!(err(s.confirm_invoice(&ctx(CLIENT_ADMIN), 0, 1, Status::Valid)), FactoringError::InsufficientScore);
}

#[test]
fn fund_invoice_advances_seventy_percent() {
    let mut s = with_invoice(10_001);
    assert_eq!(err(s.fund_invoice(&ctx(OWNER), 0, 1, &amt(1_000_000))), FactoringError::InvoiceNotFundable);
    s.confirm_invoice(&ctx(CLIENT_ADMIN), 0, 1, Status::Valid).unwrap();
    assert_eq!(err(s.fund_invoice(&ctx(STRANGER), 0, 1, &amt(1_000_000))), FactoringError::ItemNotWhitelisted);
    assert_eq!(err(s.fund_invoice(&ctx(OWNER), 0, 1, &amt(10_000))), FactoringError::NotEnoughFunds);
    assert_eq!(err(s.fund_invoice(&ctx(OWNER), 1, 1, &amt(10_000))), FactoringError::InvoiceNotFound);
    let effects = s.fund_invoice(&ctx(OWNER), 0, 1, &amt(10_001)).unwrap();
    assert_eq!(effects.len(), 2);
    match &effects[0] {
        Effect::Transfer { to, token, amount } => {
            assert_eq!(*to, addr(11));
            assert_eq!(*token, usdc());
            assert_eq!(*amount, amt(7_000));
        }
        _ => panic!("expected a transfer"),
    }
    assert_eq!(s.invoices_by_contract(0)[0].status, Status::PartiallyFunded);
}

#[test]
fn fund_invoice_of_zero_amount_sends_nothing() {
    let mut s = with_invoice(1);
    s.confirm_invoice(&ctx(CLIENT_ADMIN), 0, 1, Status::Valid).unwrap();
    let effects = s.fund_invoice(&ctx(OWNER), 0, 1, &amt(1)).unwrap();
    assert_eq!(effects.len(), 1);
    assert!(matches!(effects[0], Effect::Log(EventsModule::InvoiceFund { .. })));
}

#[test]
fn pay_invoice_returns_change_and_records_date() {
    let mut s = with_invoice(10_000);
    s.confirm_invoice(&ctx(CLIENT_ADMIN), 0, 1, Status::Valid).unwrap();
    let early = || Payment { token: usdc(), amount: amt(10_000) };
    assert_eq!(err(s.pay_invoice(&ctx(CLIENT_ADMIN), early(), 0, 1)), FactoringError::InvoiceNotPayable);
    s.fund_invoice(&ctx(OWNER), 0, 1, &amt(10_000)).unwrap();
    assert_eq!(err(s.pay_invoice(&ctx(CLIENT_ADMIN), Payment { token: egld(), amount: amt(10_000) }, 0, 1)), FactoringError::WrongTokenId);
    assert_eq!(err(s.pay_invoice(&ctx(CLIENT_ADMIN), Payment { token: usdc(), amount: amt(9_999) }, 0, 1)), FactoringError::NotEnoughFunds);
    assert_eq!(err(s.pay_invoice(&ctx(SUPPLIER_ADMIN), early(), 0, 1)), FactoringError::CallerNotAdmin);
    let effects = s.pay_invoice(&ctx_at(CLIENT_ADMIN, 777), Payment { token: usdc(), amount: amt(10_250) }, 0, 1).unwrap();
    assert_eq!(effects.len(), 2);
    match &effects[0] {
        Effect::Transfer { to, amount, .. } => {
            assert_eq!(*to, addr(CLIENT_ADMIN));
            assert_eq!(*amount, amt(250));
        }
        _ => panic!("expected the change"),
    }
    match &effects[1] {
        Effect::Log(EventsModule::InvoicePay { pay_date, .. }) => assert_eq!(*pay_date, 777),
        _ => panic!("expected the event"),
    }
    let inv = &s.invoices_by_contract(0)[0];
    assert_eq!(inv.status, Status::Payed);
    assert_eq!(inv.payed_date, Some(777));
}

#[test]
fn pay_invoice_with_exact_amount_returns_nothing() {
    let mut s = with_invoice(10_000);
    s.confirm_invoice(&ctx(CLIENT_ADMIN), 0, 1, Status::Valid).unwrap();
    s.fund_invoice(&ctx(OWNER), 0, 1, &amt(10_000)).unwrap();
    let effects = s.pay_invoice(&ctx(CLIENT_ADMIN), Payment { token: usdc(), amount: amt(10_000) }, 0, 1).unwrap();
    assert_eq!(effects.len(), 1);
}

#[test]
fn pay_invoice_auto_draws_on_client_funds() {
    let mut s = with_invoice(400);
    assert_eq!(err(s.pay_invoice_auto(&ctx(OWNER), 0, 1)), FactoringError::NotEnoughFunds);
    s.add_account_funds(&ctx(CLIENT_ADMIN), Payment { token: usdc(), amount: amt(1_000) }, 1).unwrap();
    assert_eq!(err(s.pay_invoice_auto(&ctx(CLIENT_ADMIN), 0, 1)), FactoringError::ItemNotWhitelisted);
    assert_eq!(err(s.pay_invoice_auto(&ctx(OWNER), 3, 1)), FactoringError::ContractNotFound);
    s.pay_invoice_auto(&ctx_at(OWNER, 55), 0, 1).unwrap();
    assert_eq!(s.funds_by_account(1, usdc()), amt(600));
    let inv = &s.invoices_by_contract(0)[0];
    assert_eq!(inv.status, Status::Payed);
    assert_eq!(inv.payed_date, Some(55));
}

#[test]
fn fund_remaining_amount_pays_out_net_of_fees() {
    // 1_000_000 over 30 days at 365 basis points a year:
    // advance 700_000, commission 10_000, financing 1_000_000 * 10950 / 3_650_000 = 3_000.
    let mut s = with_invoice(1_000_000);
    s.confirm_invoice(&ctx(CLIENT_ADMIN), 0, 1, Status::Valid).unwrap();
    s.fund_invoice(&ctx(OWNER), 0, 1, &amt(1_000_000)).unwrap();
    assert_eq!(err(s.fund_remaining_amount(&ctx(OWNER), 0, 1)), FactoringError::InvoiceNotFullyFundable);
    s.pay_invoice(&ctx(CLIENT_ADMIN), Payment { token: usdc(), amount: amt(1_000_000) }, 0, 1).unwrap();
    assert_eq!(err(s.fund_remaining_amount(&ctx(STRANGER), 0, 1)), FactoringError::ItemNotWhitelisted);
    let effects = s.fund_remaining_amount(&ctx(OWNER), 0, 1).unwrap();
    match &effects[0] {
        Effect::Transfer { to, amount, .. } => {
            assert_eq!(*to, addr(11));
            assert_eq!(*amount, amt(287_000));
        }
        _ => panic!("expected a transfer"),
    }
    assert_eq!(s.invoices_by_contract(0)[0].status, Status::FullyFunded);
}

#[test]
fn fund_remaining_amount_rejects_fees_above_remainder() {
    let mut s = setup();
    s.add_euribor_rate(&ctx(OWNER), 200, 4_000_000_000).unwrap();
    s.add_invoice(&ctx(SUPPLIER_ADMIN), 0, vec![], amt(1_000), 0, 86_400 * 365, usdc()).unwrap();
    s.confirm_invoice(&ctx(CLIENT_ADMIN), 0, 1, Status::Payed).unwrap();
    assert_eq!(err(s.fund_remaining_amount(&ctx(OWNER), 0, 1)), FactoringError::AmountWouldBeNegative);
}

#[test]
fn fund_remaining_amount_rejects_due_before_issue() {
    let mut s = setup();
    s.add_invoice(&ctx(SUPPLIER_ADMIN), 0, vec![], amt(1_000), 500, 100, usdc()).unwrap();
    s.confirm_invoice(&ctx(CLIENT_ADMIN), 0, 1, Status::Payed).unwrap();
    assert_eq!(err(s.fund_remaining_amount(&ctx(OWNER), 0, 1)), FactoringError::DueDateBeforeIssueDate);
}

#[test]
fn reliability_score_counts_overdue_invoices() {
    let mut s = setup();
    s.sign_contract(&ctx(CLIENT_ADMIN), 0).unwrap();
    // due at 100, paid late at 150
    s.add_invoice(&ctx(SUPPLIER_ADMIN), 0, vec![], amt(10), 0, 100, usdc()).unwrap();
    // due at 1000, not paid
    s.add_invoice(&ctx(SUPPLIER_ADMIN), 0, vec![], amt(10), 0, 1_000, usdc()).unwrap();
    s.confirm_invoice(&ctx(CLIENT_ADMIN), 0, 1, Status::PartiallyFunded).unwrap();
    s.pay_invoice(&ctx_at(CLIENT_ADMIN, 150), Payment { token: usdc(), amount: amt(10) }, 0, 1).unwrap();
    let effects = s.calculate_reliability_score(&ctx_at(STRANGER, 500), 1).unwrap();
    match &effects[0] {
        Effect::Log(EventsModule::CompanyNewScore { id_company, score }) => assert_eq!((*id_company, *score), (1, 99)),
        _ => panic!("unexpected effect"),
    }
    s.calculate_reliability_score(&ctx_at(STRANGER, 2_000), 1).unwrap();
    assert_eq!(s.companies(1).unwrap().reliability_score, 98);
    assert_eq!(err(s.calculate_reliability_score(&ctx(STRANGER), 9)), FactoringError::CompanyNotFound);
}

#[test]
fn reliability_score_stops_at_zero() {
    let mut s = setup();
    s.sign_contract(&ctx(CLIENT_ADMIN), 0).unwrap();
    for _ in 0..120 {
        s.add_invoice(&ctx(SUPPLIER_ADMIN), 0, vec![], amt(1), 0, 10, usdc()).unwrap();
    }
    s.calculate_reliability_score(&ctx_at(STRANGER, 11), 1).unwrap();
    assert_eq!(s.companies(1).unwrap().reliability_score, 0);
    // an unsigned client keeps the default score
    s.calculate_reliability_score(&ctx_at(STRANGER, 11), 0).unwrap();
    assert_eq!(s.companies(0).unwrap().reliability_score, 100);
}

#[test]
fn hatom_calls() {
    let mut s = FactoringState::new();
    let mm = addr(500);
    assert_eq!(err(s.claim_farming_rewards(&ctx(OWNER))), FactoringError::HatomControllerNotSet);
    assert_eq!(err(s.exit_market_farm(&ctx(OWNER), mm, amt(5))), FactoringError::HatomControllerNotSet);
    assert_eq!(err(s.set_hatom_controller_address(&ctx(STRANGER), addr(600))), FactoringError::ItemNotWhitelisted);
    s.set_hatom_controller_address(&ctx(OWNER), addr(600)).unwrap();
    assert_eq!(s.hatom_controller_address(), Some(addr(600)));
    let effects = s.claim_farming_rewards(&ctx(OWNER)).unwrap();
    assert!(matches!(
        effects[0],
        Effect::AsyncCall(HatomProxyModule::ClaimRewards { boost: false, supply: true, borrow: true, .. })
    ));
    let effects = s.exit_market_farm(&ctx(OWNER), mm, amt(5)).unwrap();
    match &effects[0] {
        Effect::AsyncCall(HatomProxyModule::ExitMarket { controller, money_market, tokens }) => {
            assert_eq!((*controller, *money_market), (addr(600), mm));
            assert_eq!(*tokens, amt(5));
        }
        _ => panic!("unexpected effect"),
    }
    assert_eq!(err(s.mint_with_unused_liquidity(&ctx(OWNER), usdc(), amt(10), mm, amt(9))), FactoringError::NotEnoughFunds);
    let effects = s.mint_with_unused_liquidity(&ctx(OWNER), usdc(), amt(10), mm, amt(10)).unwrap();
    match &effects[0] {
        Effect::AsyncCall(HatomProxyModule::MintAndEnterMarket { money_market, payment }) => {
            assert_eq!(*money_market, mm);
            assert_eq!((payment.token, &payment.amount), (usdc(), &amt(10)));
        }
        _ => panic!("unexpected effect"),
    }
    assert_eq!(err(s.withdraw_liquidity(&ctx(STRANGER), usdc(), amt(10), mm, amt(10))), FactoringError::ItemNotWhitelisted);
    let effects = s.withdraw_liquidity(&ctx(OWNER), usdc(), amt(10), mm, amt(11)).unwrap();
    assert!(matches!(effects[0], Effect::AsyncCall(HatomProxyModule::Redeem { .. })));
    match s.redeem_liquidity(usdc(), amt(3), mm) {
        Effect::AsyncCall(HatomProxyModule::Redeem { payment, .. }) => assert_eq!(payment.amount, amt(3)),
        _ => panic!("unexpected effect"),
    }
    assert!(matches!(s.mint_enter(usdc(), amt(3), mm), Effect::AsyncCall(HatomProxyModule::MintAndEnterMarket { .. })));
}
