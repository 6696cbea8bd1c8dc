//! The ways a command can fail.
use vstd::prelude::*;

verus! {

/// Why a command did not complete.
#[derive(Clone, Debug, PartialEq, Eq)]
pub enum ClientError {
    /// The connection, the send or the receive failed.
    Transport,
    /// Bytes did not decode as the message they should hold.
    Decode,
    /// The reply decoded but is not the one the protocol expects.
    ProtocolMismatch,
    /// The controller answered with a failure, carrying its message.
    RemoteFailure(String),
    /// A request named no component.
    EmptyComponent,
}

} // verus!
