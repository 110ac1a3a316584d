//! What a trace message declares about itself.

use vstd::prelude::*;

verus! {

/// Whether a message may leave the process: `Confidential` messages are never
/// handed to the forwarder.
#[derive(Clone, Copy, Debug, PartialEq, Eq, Structural)]
pub enum Privacy {
    Public,
    Confidential,
}

} // verus!
