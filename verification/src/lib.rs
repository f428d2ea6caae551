//! A payments ledger: client accounts, deposits, withdrawals and the
//! dispute / resolve / chargeback cycle, with every balance an exact fraction.

pub mod rational;
pub mod amount;
pub mod shared;
pub mod input_ingestion;
pub mod transaction;
pub mod disputes;
pub mod account;
pub mod payments_engine;
pub mod laws;
