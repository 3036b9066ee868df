//! A verified model of an invoice-factoring smart contract.
//!
//! Companies register with the protocol, suppliers open factoring contracts
//! with their clients, upload invoices against those contracts, and the
//! protocol advances part of each validated invoice to the supplier, collects
//! the payment from the client and forwards the remainder minus its fees.
//!
//! The contract's storage is held by [`storage::FactoringState`]; each
//! endpoint is a method that takes the values the blockchain supplies (caller,
//! owner, block timestamp, payment, balances) and returns either the error the
//! transaction fails with, or the effects it must perform (transfers, calls to
//! the Hatom money market, log events).

pub mod amount;
pub mod types;
pub mod errors;
pub mod events;
pub mod fees;
pub mod storage;
pub mod admin_config;
pub mod account_manager;
pub mod stable_farming;
pub mod factoring;
pub mod laws;
