//! Reconciliation of cash-drawer payouts against payable invoices.
pub mod amount;
pub mod similarity;
pub mod model;
pub mod matching;
pub mod resolve;
pub mod reconcile;
