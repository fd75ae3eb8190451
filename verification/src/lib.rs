//! Ledger-diff normalization engine: turns one transaction event's raw
//! affected-node diffs into uniform order-book offer records.

pub mod json;
pub mod decimal;
pub mod errors;
pub mod amount;
pub mod quality;
pub mod offer;
