//! Backends that dispatched trace messages are delivered to.

pub mod datapoint;
pub mod ekg;
pub mod forwarder;
pub mod stdout;
