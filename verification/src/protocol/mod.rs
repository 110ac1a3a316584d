//! Types carried by the trace-forward protocol.

pub mod types;
