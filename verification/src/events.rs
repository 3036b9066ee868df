//! What a successful endpoint call asks the blockchain to do: move tokens,
//! call the Hatom money market, and log events.

use vstd::prelude::*;
use crate::amount::Amount;
use crate::types::{Address, Payment, PaymentView, Status, TokenId};

verus! {

/// The events the contract logs.
#[derive(Debug)]
pub enum EventsModule {
    InvoiceAdd {
        id_contract: u64,
        hash: Vec<u8>,
        amount: Amount,
        due_date: u64,
        invoice_id: u64,
        timestamp: u64,
    },
    InvoiceConfirm { id_contract: u64, id_invoice: u64, status: Status, timestamp: u64 },
    InvoiceFund { id_contract: u64, id_invoice: u64, timestamp: u64 },
    InvoicePay { id_contract: u64, id_invoice: u64, pay_date: u64 },
    InvoiceFullyFund { id_contract: u64, id_invoice: u64, timestamp: u64 },
    ContractCreate { id_supplier: u64, id_client: u64, id_contract: u64 },
    ContractSign { id_contract: u64 },
    CompanyCreate { id_offchain: u64, id_company: u64, score: u8, fee: u64 },
    CompanyNewScore { id_company: u64, score: u8 },
    CompanyAddAdmin { id_company: u64, address: Address },
    CompanyAddFunds { id_company: u64 },
    CompanyRemoveFunds { id_company: u64 },
    ScAddAdmin { address: Address },
    ScRemoveAdmin { address: Address },
    ScAddFunds,
    ScAddToken { token: TokenId },
    ScRemoveToken { token: TokenId },
}

/// An event as a mathematical value.
pub enum EventView {
    InvoiceAdd {
        id_contract: u64,
        hash: Seq<u8>,
        amount: nat,
        due_date: u64,
        invoice_id: u64,
        timestamp: u64,
    },
    InvoiceConfirm { id_contract: u64, id_invoice: u64, status: Status, timestamp: u64 },
    InvoiceFund { id_contract: u64, id_invoice: u64, timestamp: u64 },
    InvoicePay { id_contract: u64, id_invoice: u64, pay_date: u64 },
    InvoiceFullyFund { id_contract: u64, id_invoice: u64, timestamp: u64 },
    ContractCreate { id_supplier: u64, id_client: u64, id_contract: u64 },
    ContractSign { id_contract: u64 },
    CompanyCreate { id_offchain: u64, id_company: u64, score: u8, fee: u64 },
    CompanyNewScore { id_company: u64, score: u8 },
    CompanyAddAdmin { id_company: u64, address: Address },
    CompanyAddFunds { id_company: u64 },
    CompanyRemoveFunds { id_company: u64 },
    ScAddAdmin { address: Address },
    ScRemoveAdmin { address: Address },
    ScAddFunds,
    ScAddToken { token: TokenId },
    ScRemoveToken { token: TokenId },
}

impl View for EventsModule {
    type V = EventView;

    open spec fn view(&self) -> EventView {
        match self {
            EventsModule::InvoiceAdd { id_contract, hash, amount, due_date, invoice_id, timestamp } => EventView::InvoiceAdd {
                id_contract: *id_contract,
                hash: hash@,
                amount: amount@,
                due_date: *due_date,
                invoice_id: *invoice_id,
                timestamp: *timestamp,
            },
            EventsModule::InvoiceConfirm { id_contract, id_invoice, status, timestamp } => EventView::InvoiceConfirm {
                id_contract: *id_contract,
                id_invoice: *id_invoice,
                status: *status,
                timestamp: *timestamp,
            },
            EventsModule::InvoiceFund { id_contract, id_invoice, timestamp } => EventView::InvoiceFund {
                id_contract: *id_contract,
                id_invoice: *id_invoice,
                timestamp: *timestamp,
            },
            EventsModule::InvoicePay { id_contract, id_invoice, pay_date } => EventView::InvoicePay {
                id_contract: *id_contract,
                id_invoice: *id_invoice,
                pay_date: *pay_date,
            },
            EventsModule::InvoiceFullyFund { id_contract, id_invoice, timestamp } => EventView::InvoiceFullyFund {
                id_contract: *id_contract,
                id_invoice: *id_invoice,
                timestamp: *timestamp,
            },
            EventsModule::ContractCreate { id_supplier, id_client, id_contract } => EventView::ContractCreate {
                id_supplier: *id_supplier,
                id_client: *id_client,
                id_contract: *id_contract,
            },
            EventsModule::ContractSign { id_contract } => EventView::ContractSign { id_contract: *id_contract },
            EventsModule::CompanyCreate { id_offchain, id_company, score, fee } => EventView::CompanyCreate {
                id_offchain: *id_offchain,
                id_company: *id_company,
                score: *score,
                fee: *fee,
            },
            EventsModule::CompanyNewScore { id_company, score } => EventView::CompanyNewScore {
                id_company: *id_company,
                score: *score,
            },
            EventsModule::CompanyAddAdmin { id_company, address } => EventView::CompanyAddAdmin {
                id_company: *id_company,
                address: *address,
            },
            EventsModule::CompanyAddFunds { id_company } => EventView::CompanyAddFunds { id_company: *id_company },
            EventsModule::CompanyRemoveFunds { id_company } => EventView::CompanyRemoveFunds { id_company: *id_company },
            EventsModule::ScAddAdmin { address } => EventView::ScAddAdmin { address: *address },
            EventsModule::ScRemoveAdmin { address } => EventView::ScRemoveAdmin { address: *address },
            EventsModule::ScAddFunds => EventView::ScAddFunds,
            EventsModule::ScAddToken { token } => EventView::ScAddToken { token: *token },
            EventsModule::ScRemoveToken { token } => EventView::ScRemoveToken { token: *token },
        }
    }
}

/// The calls the contract makes to the Hatom money market and controller.
#[derive(Debug)]
pub enum HatomProxyModule {
    /// `mintAndEnterMarket` on a money market, with no account, paying it `payment`.
    MintAndEnterMarket { money_market: Address, payment: Payment },
    /// `redeem` on a money market, with no underlying amount, paying it `payment`.
    Redeem { money_market: Address, payment: Payment },
    /// `exitMarket` on the controller for a money market and an amount of tokens.
    ExitMarket { controller: Address, money_market: Address, tokens: Amount },
    /// `claimRewards` on the controller, with the given flags and no money
    /// markets nor accounts.
    ClaimRewards { controller: Address, boost: bool, supply: bool, borrow: bool },
}

/// A call to the Hatom market as a mathematical value.
pub enum HatomCallView {
    MintAndEnterMarket { money_market: Address, payment: PaymentView },
    Redeem { money_market: Address, payment: PaymentView },
    ExitMarket { controller: Address, money_market: Address, tokens: nat },
    ClaimRewards { controller: Address, boost: bool, supply: bool, borrow: bool },
}

impl View for HatomProxyModule {
    type V = HatomCallView;

    open spec fn view(&self) -> HatomCallView {
        match self {
            HatomProxyModule::MintAndEnterMarket { money_market, payment } => HatomCallView::MintAndEnterMarket {
                money_market: *money_market,
                payment: payment@,
            },
            HatomProxyModule::Redeem { money_market, payment } => HatomCallView::Redeem {
                money_market: *money_market,
                payment: payment@,
            },
            HatomProxyModule::ExitMarket { controller, money_market, tokens } => HatomCallView::ExitMarket {
                controller: *controller,
                money_market: *money_market,
                tokens: tokens@,
            },
            HatomProxyModule::ClaimRewards { controller, boost, supply, borrow } => HatomCallView::ClaimRewards {
                controller: *controller,
                boost: *boost,
                supply: *supply,
                borrow: *borrow,
            },
        }
    }
}

/// One thing a successful call asks the blockchain to do, in order.
#[derive(Debug)]
pub enum Effect {
    /// Send `amount` of `token` to `to`.
    Transfer { to: Address, token: TokenId, amount: Amount },
    /// Make the asynchronous call and end the transaction.
    AsyncCall(HatomProxyModule),
    /// Log the event.
    Log(EventsModule),
}

/// An effect as a mathematical value.
pub enum EffectView {
    Transfer { to: Address, token: TokenId, amount: nat },
    AsyncCall(HatomCallView),
    Log(EventView),
}

impl View for Effect {
    type V = EffectView;

    open spec fn view(&self) -> EffectView {
        match self {
            Effect::Transfer { to, token, amount } => EffectView::Transfer { to: *to, token: *token, amount: amount@ },
            Effect::AsyncCall(call) => EffectView::AsyncCall(call@),
            Effect::Log(event) => EffectView::Log(event@),
        }
    }
}

/// A list of effects as mathematical values.
pub open spec fn effects_view(effects: Seq<Effect>) -> Seq<EffectView> {
    effects.map_values(|e: Effect| e@)
}

} // verus!
