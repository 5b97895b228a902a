//! A ledger of deploy/reward rounds with verified aggregate statistics.
//!
//! `stats` holds the record types and the mathematical model of the
//! aggregation, `ledger` the store keyed by round id, `report` what the report
//! on a finished round shows, and `laws` the properties proved of them.
//! Amounts are integers in the smallest unit of their denomination.

pub mod laws;
pub mod ledger;
pub mod report;
pub mod stats;
