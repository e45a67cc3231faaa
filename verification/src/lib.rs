//! Embedded control of a shared Codex daemon: the decisions, without the I/O.

pub mod clock;
pub mod control;
pub mod hooks;
pub mod ingest;
pub mod json;
pub mod laws;
pub mod mock;
pub mod path;
pub mod rpc;
pub mod skills;
pub mod supervisor;
pub mod table;
pub mod text;
pub mod threads;
pub mod transport;
