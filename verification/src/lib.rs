//! A loyalty-points ledger coupled to a randomness-backed prize lottery.
//!
//! Accounts accumulate points and spend them to claim prizes from a shared
//! pool; an external oracle delivers random values that back each claim.
//! Every operation is an atomic transition on an explicitly passed store:
//! it either fully applies or leaves the store untouched. The contracts
//! state, among other things, that no account ever spends more than it
//! earned, that a randomness outcome is consumed at most once, and that a
//! claim selects its prize deterministically from the random value.

pub mod contract;
pub mod error;
pub mod msg;
pub mod order;
pub mod outcomes;
pub mod randomness;
pub mod state;
