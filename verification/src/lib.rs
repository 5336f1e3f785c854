//! The verified core of an interactive storyteller.
pub mod ai;
pub mod compaction;
pub mod dicerolls;
pub mod double;
pub mod entities;
pub mod error;
pub mod images;
pub mod json;
pub mod ledger;
pub mod mechanics;
pub mod narration;
pub mod narrator;
pub mod passages;
pub mod prompts;
pub mod rows;
pub mod sequence;
pub mod settings;
pub mod sorting;
pub mod stamp;
pub mod store;
pub mod stories;
pub mod text;
