//! Per-project memory limits for JavaScript runtimes: runtime rules, the
//! project store, memory resolution and out-of-memory recovery.

pub mod config;
pub mod manager;
pub mod project;
pub mod runtime;
pub mod text;
