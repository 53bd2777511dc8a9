//! The reconciliation pipeline: filter, extract, merge and dedup, the
//! four pure stages that turn three record collections into one
//! deduplicated, order-stable output collection per locale.

pub mod dedup;
pub mod extract;
pub mod filter;
pub mod lookup;
pub mod merge;
