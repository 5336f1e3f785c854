//! Rolls of the dice: when the narrator rolls, and what was rolled.
pub mod commands;
pub mod model;
