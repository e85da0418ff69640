//! Control surface for long-running runs: an integrity gate for canonical
//! documents and an append-only, resumable event feed per run.

pub mod broker;
pub mod event_log;
pub mod hash;
pub mod hex;
pub mod integrity;
pub mod messages;
pub mod service;
pub mod status;
