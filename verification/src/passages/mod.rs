//! Stories told in passages, with variants of a passage to choose from.

pub mod characters;
pub mod commands;
pub mod history;
pub mod images;
pub mod model;
pub mod owner;
pub mod planned;
pub mod record;
pub mod repository;
pub mod stories;
pub mod telling;
pub mod variants;
