//! Verified core of a supervisor for an external file-recovery command-line
//! tool: command construction, incremental UTF-16LE decoding of the tool's
//! output pipes, phase/progress inference from free-text lines, log
//! deduplication, run-state bookkeeping with cancellation, exit-code
//! classification, and post-run cataloguing of recovered files.

pub mod args;
pub mod catalog;
pub mod classify;
pub mod config;
pub mod decode;
pub mod dedup;
pub mod drives;
pub mod events;
pub mod health;
pub mod lifecycle;
pub mod patterns;
pub mod state;
pub mod strutil;
