//! Mini-protocol numbers of the trace-forward multiplexer.

use vstd::prelude::*;

verus! {

/// Handshake mini-protocol.
pub const PROTOCOL_HANDSHAKE: u16 = 0;

/// Trace-object mini-protocol.
pub const PROTOCOL_TRACE_OBJECT: u16 = 2;

/// EKG mini-protocol.
pub const PROTOCOL_EKG: u16 = 1;

/// DataPoint mini-protocol.
pub const PROTOCOL_DATA_POINT: u16 = 3;

} // verus!
