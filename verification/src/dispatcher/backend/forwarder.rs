//! Forwarder backend: queues trace objects for the trace-forward connection.

use vstd::prelude::*;

use crate::protocol::types::TraceObject;

verus! {

#[verifier::external_type_specification]
#[verifier::external_body]
#[verifier::reject_recursive_types(T)]
pub struct ExSender<T>(tokio::sync::mpsc::Sender<T>);

/// The sending half of the queue the trace-forward connection reads from.
pub type ForwarderHandle = tokio::sync::mpsc::Sender<TraceObject>;

/// Why a trace object could not be queued.
#[derive(Clone, Copy, Debug, PartialEq, Eq, Structural)]
pub enum ForwarderError {
    /// The queue is full; the object was dropped rather than waited on.
    QueueFull,
    /// The receiving side has gone away.
    Closed,
}

/// Calls `tokio::sync::mpsc::Sender::try_send`, which never blocks.  Whether
/// the object is queued depends on the queue's state, which nothing here
/// describes; on failure the object is handed back (`TrySendError::Full` or
/// `TrySendError::Closed`), as tokio documents.
#[verifier::external_body]
fn try_send(handle: &ForwarderHandle, obj: TraceObject) -> (r: Result<(), (ForwarderError, TraceObject)>)
    ensures
        r matches Err((_, back)) ==> back == obj,
{
    match handle.try_send(obj) {
        Ok(()) => Ok(()),
        Err(tokio::sync::mpsc::error::TrySendError::Full(o)) => Err((ForwarderError::QueueFull, o)),
        Err(tokio::sync::mpsc::error::TrySendError::Closed(o)) => Err((ForwarderError::Closed, o)),
    }
}

/// What dispatching returns for the queue's answer `sent`: success when the
/// object was queued, else the reason it was not (the object handed back is
/// dropped).
pub fn send_outcome(sent: Result<(), (ForwarderError, TraceObject)>) -> (r: Result<(), ForwarderError>)
    ensures
        match sent {
            Ok(()) => r == Ok::<(), ForwarderError>(()),
            Err((e, _)) => r == Err::<(), ForwarderError>(e),
        },
{
    match sent {
        Ok(()) => Ok(()),
        Err((e, _)) => Err(e),
    }
}

/// Backend that forwards trace objects to the tracer through the
/// trace-forward queue.
pub struct ForwarderBackend {
    handle: ForwarderHandle,
}

impl ForwarderBackend {
    /// A forwarder backend writing to `handle`.
    pub fn new(handle: ForwarderHandle) -> (r: Self)
        ensures
            r.handle_view() == handle,
    {
        ForwarderBackend { handle }
    }

    /// The queue this backend writes to.
    pub closed spec fn handle_view(self) -> ForwarderHandle {
        self.handle
    }

    /// Queues a copy of `obj` without blocking; an object that does not fit
    /// is dropped and the reason returned.  Whether it fits depends on the
    /// queue, which this contract does not describe; what is returned for
    /// each answer of the queue is [`send_outcome`].
    pub fn dispatch(&self, obj: &TraceObject) -> (r: Result<(), ForwarderError>) {
        send_outcome(try_send(&self.handle, obj.clone()))
    }
}

} // verus!
