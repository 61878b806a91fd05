//! Verified core of a multi-stream video recorder: configuration handling,
//! storage bookkeeping, retry scheduling and per-stream recording state.

pub mod retry;
pub mod text;
pub mod path;
pub mod config;
pub mod error;
pub mod recorder;
pub mod storage;
pub mod session;
pub mod api;
pub mod timefmt;
