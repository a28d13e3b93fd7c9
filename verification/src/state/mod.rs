//! What the application keeps: the user's settings and the live data.

pub mod app_state;
pub mod config;
