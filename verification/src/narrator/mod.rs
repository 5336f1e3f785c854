//! The narrator: what it is told, the tools that it has, and what comes of them.
pub mod answers;
pub mod catalog;
pub mod commit;
pub mod dice;
pub mod generation;
pub mod landing;
pub mod injection;
pub mod model;
pub mod odds;
pub mod overlay;
pub mod staged_roll;
pub mod staging;
pub mod stream;
pub mod surroundings;
pub mod told;
pub mod tool_error;
pub mod tools;
pub mod transcript;
pub mod player;
