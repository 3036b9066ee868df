//! Plain-value types that the contract's logic reads and stores.

use vstd::prelude::*;
use crate::amount::Amount;

verus! {

/// Fee charged by the protocol, in basis points (1%).
pub const DEFAULT_PERCENT_FEE: u64 = 100;

/// Reliability score given to a newly registered company.
pub const DEFAULT_SCORE: u8 = 100;

/// Share of an invoice advanced to the supplier, in basis points (70%).
pub const DEFAULT_PERCENT_PAY: u64 = 7_000;

/// One hundred percent, in basis points.
pub const ONE_HUNDRED_PERCENT: u64 = 10_000;

/// A client must score strictly above this to confirm invoices.
pub const MIN_SCORE: u8 = 80;

/// Seconds in a day.
pub const SECONDS_PER_DAY: u64 = 86_400;

/// Days in a year, used to turn the yearly Euribor rate into a daily one.
pub const DAYS_PER_YEAR: u64 = 365;

/// A 32-byte account address, as two big-endian 128-bit halves.
#[derive(PartialEq, Eq, Structural, Clone, Copy, Debug)]
pub struct Address {
    pub hi: u128,
    pub lo: u128,
}

/// A token identifier (`EGLD` or an ESDT ticker) of at most 32 bytes:
/// its length, and its bytes read as a big-endian number split in two halves.
#[derive(PartialEq, Eq, Structural, Clone, Copy, Debug)]
pub struct TokenId {
    pub len: u8,
    pub hi: u128,
    pub lo: u128,
}

/// Lifecycle of an invoice.
#[derive(PartialEq, Eq, Structural, Clone, Copy, Debug)]
pub enum Status {
    PendingValidation,
    Valid,
    PartiallyFunded,
    Payed,
    FullyFunded,
    Refused,
}

/// A single fungible payment: a token and an amount of it.
#[derive(Debug)]
pub struct Payment {
    pub token: TokenId,
    pub amount: Amount,
}

/// A payment as a mathematical value.
pub struct PaymentView {
    pub token: TokenId,
    pub amount: nat,
}

impl View for Payment {
    type V = PaymentView;

    open spec fn view(&self) -> PaymentView {
        PaymentView { token: self.token, amount: self.amount@ }
    }
}

/// What the blockchain tells an endpoint about the call it runs in.
#[derive(PartialEq, Eq, Structural, Clone, Copy, Debug)]
pub struct CallContext {
    pub caller: Address,
    pub owner: Address,
    pub block_timestamp: u64,
}

/// A registered company.
#[derive(Debug)]
pub struct Company {
    pub id_offchain: u64,
    pub administrators: Vec<Address>,
    pub is_kyc: bool,
    pub fee: u64,
    pub withdraw_address: Address,
    pub reliability_score: u8,
}

/// A company as a mathematical value.
pub struct CompanyView {
    pub id_offchain: u64,
    pub administrators: Seq<Address>,
    pub is_kyc: bool,
    pub fee: u64,
    pub withdraw_address: Address,
    pub reliability_score: u8,
}

impl View for Company {
    type V = CompanyView;

    open spec fn view(&self) -> CompanyView {
        CompanyView {
            id_offchain: self.id_offchain,
            administrators: self.administrators@,
            is_kyc: self.is_kyc,
            fee: self.fee,
            withdraw_address: self.withdraw_address,
            reliability_score: self.reliability_score,
        }
    }
}

/// A factoring contract between a supplier and a client.
#[derive(PartialEq, Eq, Structural, Clone, Copy, Debug)]
pub struct CustomerContract {
    pub id_supplier: u64,
    pub id_client: u64,
    pub is_signed: bool,
}

/// An invoice uploaded by a supplier against a contract.
#[derive(Debug)]
pub struct Invoice {
    pub hash: Vec<u8>,
    pub amount: Amount,
    pub identifier: TokenId,
    pub status: Status,
    pub issue_date: u64,
    pub due_date: u64,
    pub euribor_rate: u32,
    pub payed_date: Option<u64>,
}

/// An invoice as a mathematical value.
pub struct InvoiceView {
    pub hash: Seq<u8>,
    pub amount: nat,
    pub identifier: TokenId,
    pub status: Status,
    pub issue_date: u64,
    pub due_date: u64,
    pub euribor_rate: u32,
    pub payed_date: Option<u64>,
}

impl View for Invoice {
    type V = InvoiceView;

    open spec fn view(&self) -> InvoiceView {
        InvoiceView {
            hash: self.hash@,
            amount: self.amount@,
            identifier: self.identifier,
            status: self.status,
            issue_date: self.issue_date,
            due_date: self.due_date,
            euribor_rate: self.euribor_rate,
            payed_date: self.payed_date,
        }
    }
}

/// An amount of one token held on behalf of someone.
#[derive(Debug)]
pub struct TokenBalance {
    pub token: TokenId,
    pub amount: Amount,
}

} // verus!
