//! The command layer's rules: what its words stand for and what its
//! commands do to a state.

pub mod cli_structs;
pub mod commands;
