//! Summaries that stand for the older part of a story.
pub mod budget;
pub mod summary;
