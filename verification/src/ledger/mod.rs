//! The ledger: the append-only record from which a story is read.

pub mod cascade;
pub mod kind;
pub mod model;
pub mod reducer;
pub mod repository;
pub mod turn_tx;
pub mod turns;
