//! Tracer-side state: connected nodes and their slugs.

pub mod node;
