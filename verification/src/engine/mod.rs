//! The rules: what is watched, trimmed, suspended and told to the user.

pub mod bloat_scan;
pub mod icons;
pub mod monitor;
pub mod notifications;
pub mod process_table;
pub mod profiler;
pub mod profiles;
pub mod reader;
pub mod suspender;
pub mod trimmer;
pub mod updater;
