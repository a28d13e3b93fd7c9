//! Memory management rules of a Windows tray application: which processes may
//! be trimmed or suspended, when, and what is recorded about it.
//!
//! Everything that touches the operating system, the network or the disk stays
//! outside; this crate takes plain values and decides.

pub mod text;
pub mod json;
pub mod state;
pub mod engine;
pub mod commands;
pub mod shell;
