//! Ledger of a rune launchpad: fixed-supply runes bought with a payment
//! token, per-account entitlements, and the withdrawal and compensation
//! steps that settle them.

pub mod balances;
pub mod runes;
pub mod holders;
pub mod contract;
