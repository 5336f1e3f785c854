//! Turns of a story: what the narrator is told beside the history, and how a turn is made,
//! replaced and taken back.
pub mod asked;
pub mod author_note;
pub mod context;
pub mod entity_context;
pub mod history;
pub mod model;
pub mod reading;
pub mod replacement;
pub mod repository;
pub mod rewind;
pub mod edit;
pub mod notes;
pub mod passage;
pub mod retry;
pub mod commands;
pub mod spoken;
pub mod taken_back;
pub mod timeline;
pub mod tools;
pub mod undone;
pub mod staged;
