//! A price-reference store with verified core logic: atomic batch upsert
//! of per-symbol rate records, and cross-rate resolution that scales a
//! base rate against a quote rate, with the numeraire symbol "USD"
//! synthesized fresh at query time.

pub mod error;
pub mod msg;
pub mod state;
pub mod contract;
