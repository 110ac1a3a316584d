//! hermod: trace routing, per-node tracer state and their verified core.

pub mod server;
pub mod text;
pub mod protocol;
pub mod search;
pub mod dispatcher;
pub mod time;
pub mod mux;
