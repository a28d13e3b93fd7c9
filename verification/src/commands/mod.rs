//! The requests that the user interface makes.

pub mod config_commands;
pub mod data_commands;
pub mod profile_commands;
pub mod trim_commands;
