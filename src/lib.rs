//! Balance histories of ledger accounts, rebuilt backward from a trusted
//! present balance over a log of transfer events.
pub mod account;
pub mod balances;
pub mod errors;
pub mod history;
pub mod laws;
pub mod ledger;
pub mod numeric;
pub mod types;
