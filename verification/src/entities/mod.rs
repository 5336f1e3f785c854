//! Entities: who and what a story is about, rebuilt from the ledger at any time.

pub mod attributes;
pub mod commands;
pub mod consistency;
pub mod events;
pub mod model;
pub mod projection;
pub mod reads;
pub mod registry;
pub mod repository;
pub mod rooted;
pub mod upkeep;
pub mod values;
pub mod view;
