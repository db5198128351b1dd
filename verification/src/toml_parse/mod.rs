//! The stored form of the unlock state.

pub mod savefile;
