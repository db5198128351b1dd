//! The catalog of characters and targets, the unlock state and the pick
//! engine.

pub mod character_set;
pub mod characters;
pub mod dependency;
pub mod discovery;
pub mod draw;
pub mod picker;
pub mod pool;
pub mod resolver;
pub mod table;
pub mod target_set;
pub mod targets;
