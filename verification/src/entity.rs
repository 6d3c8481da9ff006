//! The records of the ledger: users, groups and expenses, as plain values.

pub mod expense;
pub mod group;
pub mod user;
