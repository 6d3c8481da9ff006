//! Shared-expense bookkeeping for groups of people: exact decimal amounts,
//! the settlement of a group's debts into pairwise transfers, and the
//! conversation state machine that drives the dialogue with a member.

pub mod amount;
pub mod bot;
pub mod cli;
pub mod entity;
pub mod report;
pub mod settlement;
pub mod settlement_laws;
pub mod text;
