//! A verified core for a crowd-sourced price tracker: receipts scanned from
//! QR codes are deduplicated, turned into draft purchase operations, posted
//! through a checked state machine, and propagated into a current-price index
//! with an append-only activity ledger. A polling chat worker feeds the
//! pipeline and a time-boxed link-code protocol binds chat identities to
//! application accounts.

pub mod activity;
pub mod gateway;
pub mod index;
pub mod linkcode;
pub mod operation;
pub mod pricing;
pub mod propagate;
pub mod receipt;
pub mod settings;
pub mod text;
pub mod users;
pub mod worker;
