//! Mechanics of a timeline: its settings, the results that it tells of, the attributes that a
//! model proposes for it, and the values that entities have on them.
pub mod attributes;
pub mod commands;
pub mod values;
