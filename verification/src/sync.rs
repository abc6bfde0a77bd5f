//! What the bridge shares with the peer protocol: its configuration and the
//! errors that it reports.

use std::time::Duration;
use vstd::prelude::*;

verus! {

/// Parameters of the peer protocol.
pub struct ProtocolConfiguration {
    /// How long a request to a peer may stay unanswered.
    pub request_timeout: Duration,
}

/// Why a request to a peer ended without its response, or could not be
/// served.
#[derive(Clone, Copy, Debug, PartialEq, Eq, Structural)]
pub enum Error {
    /// No response came within the request's deadline.
    RpcTimeout,
    /// The peer answered that it could not serve the request.
    RpcPeerFailure,
    /// The request was cancelled before it was resolved.
    RpcCancelledByDisconnection,
    /// The queue of the retrieval worker no longer takes work.
    RetrievalQueueClosed,
}

} // verus!
