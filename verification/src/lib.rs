//! Unlock tracking and run randomisation for a roguelike's cast of characters
//! and bosses.
//!
//! The crate keeps a player's unlock state, works out from it which character
//! may be sent against which targets next, and settles one such pairing from
//! a handful of random draws.

pub mod cli;
pub mod randomizer;
pub mod text;
pub mod toml_parse;
