//! Images of scenes.

pub mod generation;
pub mod model;
pub mod openrouter;
pub mod repository;
pub mod shown;
