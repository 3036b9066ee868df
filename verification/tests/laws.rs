use factoring::account_manager::AccountManagerModule;
use factoring::admin_config::AdminConfigModule;
use factoring::amount::Amount;
use factoring::factoring::Factoring;
use factoring::storage::{FactoringState, Storage};
use factoring::types::{Address, CallContext, Payment, Status, TokenId};

fn amt(x: u128) -> Amount {
    Amount::from_u128(x)
}

fn addr(n: u128) -> Address {
    Address { hi: 7, lo: n }
}

fn token() -> TokenId {
    TokenId { len: 11, hi: 0, lo: 0x4142_4344 }
}

fn ctx(caller: u128, now: u64) -> CallContext {
    CallContext { caller: addr(caller), owner: addr(1), block_timestamp: now }
}

fn company_state() -> FactoringState {
    let mut s = FactoringState::new();
    s.add_allowed_tokens(&ctx(1, 0), token()).unwrap();
    s.add_company(&ctx(1, 0), 5, vec![addr(3)], true, addr(4)).unwrap();
    s
}

#[test]
fn deposit_then_withdraw_restores_funds() {
    let mut s = company_state();
    s.add_account_funds(&ctx(3, 0), Payment { token: token(), amount: amt(40) }, 0).unwrap();
    s.add_account_funds(&ctx(3, 0), Payment { token: token(), amount: amt(60) }, 0).unwrap();
    s.remove_account_funds(&ctx(3, 0), 0, token(), amt(60)).unwrap();
    assert_eq!(s.funds_by_account(0, token()), amt(40));
    s.remove_account_funds(&ctx(3, 0), 0, token(), amt(40)).unwrap();
    assert_eq!(s.funds_by_account(0, token()), amt(0));
    // a balance taken back to zero leaves no entry, as before the deposit
    assert!(s.funds_by_account[0].is_empty());
}

#[test]
fn protocol_funds_round_trip() {
    let mut s = company_state();
    s.add_protocol_funds(&ctx(1, 0), Payment { token: token(), amount: amt(9) }).unwrap();
    s.remove_protocol_funds(&ctx(1, 0), token(), amt(9)).unwrap();
    assert_eq!(s.protocol_funds(token()), amt(0));
    assert!(s.protocol_funds.is_empty());
}

#[test]
fn admin_and_token_lists_round_trip() {
    let mut s = company_state();
    s.add_user_to_admin_list(&ctx(1, 0), addr(8)).unwrap();
    s.remove_user_from_admin_list(&ctx(1, 0), addr(8)).unwrap();
    assert!(s.admin_whitelist.is_empty());
    let other = TokenId { len: 4, hi: 0, lo: 9 };
    s.add_allowed_tokens(&ctx(1, 0), other).unwrap();
    s.remove_allowed_tokens(&ctx(1, 0), other).unwrap();
    assert!(s.is_allowed_token(token()));
    assert!(!s.is_allowed_token(other));
    assert_eq!(s.allowed_tokens.len(), 1);
}

#[test]
fn failed_call_changes_nothing() {
    let mut s = company_state();
    s.add_euribor_rate(&ctx(1, 0), 10, 300).unwrap();
    s.create_factoring_contract(&ctx(3, 0), 0, 0).unwrap();
    s.add_invoice(&ctx(3, 0), 0, vec![1], amt(50), 0, 10, token()).unwrap();
    let before_invoices = s.invoices_by_contract(0).len();
    assert!(s.add_invoice(&ctx(9, 0), 0, vec![2], amt(50), 0, 10, token()).is_err());
    assert!(s.add_account_funds(&ctx(3, 0), Payment { token: token(), amount: amt(u128::MAX) }, 0).is_ok());
    assert!(s.add_account_funds(&ctx(9, 0), Payment { token: token(), amount: amt(1) }, 0).is_err());
    assert_eq!(s.funds_by_account(0, token()), amt(u128::MAX));
    assert_eq!(s.invoices_by_contract(0).len(), before_invoices);
    assert!(s.add_euribor_rate(&ctx(1, 0), 10, 999).is_err());
    assert_eq!(s.euribor_rate(), Some((300, 10)));
}

#[test]
fn uploaded_invoice_is_read_back_under_reported_index() {
    let mut s = company_state();
    s.add_euribor_rate(&ctx(1, 0), 10, 300).unwrap();
    s.create_factoring_contract(&ctx(3, 0), 0, 0).unwrap();
    s.create_factoring_contract(&ctx(3, 0), 0, 0).unwrap();
    s.add_invoice(&ctx(3, 0), 1, vec![9], amt(70), 1, 2, token()).unwrap();
    let effects = s.add_invoice(&ctx(3, 0), 1, vec![8], amt(80), 3, 4, token()).unwrap();
    let id = match &effects[0] {
        factoring::events::Effect::Log(factoring::events::EventsModule::InvoiceAdd { invoice_id, .. }) => *invoice_id,
        _ => panic!("unexpected effect"),
    };
    assert_eq!(id, 2);
    let inv = &s.invoices_by_contract(1)[(id - 1) as usize];
    assert_eq!((&inv.amount, inv.issue_date, inv.due_date, inv.euribor_rate), (&amt(80), 3, 4, 300));
    assert_eq!(inv.hash, vec![8]);
    assert_eq!(s.invoices_by_contract(0).len(), 0);
}

#[test]
fn signing_lists_contract_once() {
    let mut s = company_state();
    s.create_factoring_contract(&ctx(3, 0), 0, 0).unwrap();
    s.create_factoring_contract(&ctx(3, 0), 0, 0).unwrap();
    s.sign_contract(&ctx(3, 0), 1).unwrap();
    s.sign_contract(&ctx(3, 0), 0).unwrap();
    s.sign_contract(&ctx(3, 0), 1).unwrap();
    assert_eq!(s.contracts_client_by_account(0), &[1u64, 0][..]);
}

#[test]
fn invoice_lifecycle_settles_amount() {
    let mut s = company_state();
    s.add_company(&ctx(1, 0), 6, vec![addr(5)], true, addr(6)).unwrap();
    s.add_euribor_rate(&ctx(1, 0), 10, 730).unwrap();
    s.create_factoring_contract(&ctx(3, 0), 0, 1).unwrap();
    s.add_invoice(&ctx(3, 0), 0, vec![], amt(365_000), 0, 86_400 * 100, token()).unwrap();
    s.confirm_invoice(&ctx(5, 0), 0, 1, Status::Valid).unwrap();
    let funded = s.fund_invoice(&ctx(1, 0), 0, 1, &amt(365_000)).unwrap();
    s.pay_invoice(&ctx(5, 0), Payment { token: token(), amount: amt(365_000) }, 0, 1).unwrap();
    let rest = s.fund_remaining_amount(&ctx(1, 0), 0, 1).unwrap();
    let sent = |effects: &Vec<factoring::events::Effect>| -> Amount {
        match &effects[0] {
            factoring::events::Effect::Transfer { amount, .. } => amount.copy(),
            _ => Amount::zero(),
        }
    };
    let fees = s.calculate_total_fees(&s.invoices_by_contract(0)[0]);
    // commission 3_650, financing 365_000 * 730 * 100 / 3_650_000 = 7_300
    assert_eq!(fees, amt(10_950));
    assert_eq!(sent(&funded), amt(255_500));
    assert_eq!(sent(&funded).add(&sent(&rest)).add(&fees), amt(365_000));
    assert_eq!(s.invoices_by_contract(0)[0].status, Status::FullyFunded);
}

#[test]
fn score_drops_one_per_overdue_invoice() {
    let mut s = company_state();
    s.add_euribor_rate(&ctx(1, 0), 10, 1).unwrap();
    s.create_factoring_contract(&ctx(3, 0), 0, 0).unwrap();
    s.sign_contract(&ctx(3, 0), 0).unwrap();
    for k in 0..5u64 {
        s.add_invoice(&ctx(3, 0), 0, vec![], amt(1), 0, 10 * (k + 1), token()).unwrap();
    }
    let mut last = 100u8;
    for now in [0u64, 15, 25, 35, 45, 55] {
        s.calculate_reliability_score(&ctx(42, now), 0).unwrap();
        let score = s.companies(0).unwrap().reliability_score;
        assert!(score <= last);
        last = score;
    }
    assert_eq!(last, 95);
}

#[test]
fn only_add_euribor_rate_changes_the_rate() {
    let mut s = company_state();
    s.add_euribor_rate(&ctx(1, 0), 10, 300).unwrap();
    s.add_company(&ctx(1, 0), 6, vec![addr(5)], true, addr(6)).unwrap();
    s.create_factoring_contract(&ctx(3, 0), 0, 1).unwrap();
    s.sign_contract(&ctx(5, 0), 0).unwrap();
    s.add_company_administrator(&ctx(3, 0), 0, addr(30)).unwrap();
    s.add_account_funds(&ctx(5, 0), Payment { token: token(), amount: amt(1_000) }, 1).unwrap();
    s.add_protocol_funds(&ctx(1, 0), Payment { token: token(), amount: amt(7) }).unwrap();
    s.add_invoice(&ctx(3, 0), 0, vec![], amt(100), 0, 86_400, token()).unwrap();
    s.confirm_invoice(&ctx(5, 0), 0, 1, Status::Valid).unwrap();
    s.fund_invoice(&ctx(1, 0), 0, 1, &amt(100)).unwrap();
    s.pay_invoice_auto(&ctx(1, 50), 0, 1).unwrap();
    s.fund_remaining_amount(&ctx(1, 60), 0, 1).unwrap();
    s.calculate_reliability_score(&ctx(1, 100_000), 1).unwrap();
    s.add_user_to_admin_list(&ctx(1, 0), addr(8)).unwrap();
    assert_eq!(s.euribor_rate(), Some((300, 10)));
    // a rejected update leaves it too; an accepted one moves it forward
    assert!(s.add_euribor_rate(&ctx(8, 0), 9, 1).is_err());
    assert_eq!(s.euribor_rate(), Some((300, 10)));
    s.add_euribor_rate(&ctx(8, 0), 11, 1).unwrap();
    assert_eq!(s.euribor_rate(), Some((1, 11)));
}

#[test]
fn deposits_beyond_128_bits_round_trip() {
    let mut s = company_state();
    s.add_account_funds(&ctx(3, 0), Payment { token: token(), amount: amt(5) }, 0).unwrap();
    s.add_account_funds(&ctx(3, 0), Payment { token: token(), amount: amt(u128::MAX) }, 0).unwrap();
    assert_eq!(s.funds_by_account(0, token()), amt(u128::MAX).add(&amt(5)));
    s.remove_account_funds(&ctx(3, 0), 0, token(), amt(u128::MAX)).unwrap();
    assert_eq!(s.funds_by_account(0, token()), amt(5));
    s.add_protocol_funds(&ctx(1, 0), Payment { token: token(), amount: amt(u128::MAX) }).unwrap();
    s.add_protocol_funds(&ctx(1, 0), Payment { token: token(), amount: amt(u128::MAX) }).unwrap();
    assert_eq!(s.protocol_funds(token()), amt(u128::MAX).mul_small(2));
    s.remove_protocol_funds(&ctx(1, 0), token(), amt(u128::MAX).mul_small(2)).unwrap();
    assert!(s.protocol_funds.is_empty());
}

#[test]
fn storage_consistency_is_checked() {
    let mut s = company_state();
    assert!(FactoringState::new().is_well_formed());
    s.add_euribor_rate(&ctx(1, 0), 10, 300).unwrap();
    s.create_factoring_contract(&ctx(3, 0), 0, 0).unwrap();
    s.sign_contract(&ctx(3, 0), 0).unwrap();
    s.add_account_funds(&ctx(3, 0), Payment { token: token(), amount: amt(5) }, 0).unwrap();
    assert!(s.is_well_formed());
    s.allowed_tokens.push(token());
    assert!(!s.is_well_formed());
    s.allowed_tokens.pop();
    s.contracts_client_by_account[0].push(0);
    assert!(!s.is_well_formed());
    s.contracts_client_by_account[0].pop();
    s.funds_by_account[0][0].amount = Amount::zero();
    assert!(!s.is_well_formed());
    s.funds_by_account[0][0].amount = amt(5);
    s.customer_contracts[0].id_supplier = 4;
    assert!(!s.is_well_formed());
    s.customer_contracts[0].id_supplier = 0;
    s.invoices_by_contract.push(vec![]);
    assert!(!s.is_well_formed());
    s.invoices_by_contract.pop();
    assert!(s.is_well_formed());
}
