//! A verified core for a media-playback synchronization client: the wire
//! message model, the JSON codec for it, the shared session state, and the
//! decision logic of the reconnecting connection manager.

pub mod codec;
pub mod manager;
pub mod protocol;
pub mod state;

use vstd::prelude::*;

verus! {

/// Errors surfaced synchronously to a caller. Link-level failures are never
/// surfaced as errors: they are absorbed by the reconnection loop and show
/// only as a status change; malformed wire messages are dropped.
#[derive(Debug, Clone, PartialEq, Eq, Structural)]
pub enum SyncError {
    /// The endpoint address built from the server address and room does not
    /// parse as a well-formed URL.
    InvalidAddress,
    /// An outbound send was attempted while no outbound handle is installed.
    NotConnected,
}

impl SyncError {
    /// A human-readable description of the error.
    pub fn text(&self) -> (r: String)
        ensures
            *self is InvalidAddress ==> r@ == "Invalid address"@,
            *self is NotConnected ==> r@ == "Not connected"@,
    {
        match self {
            SyncError::InvalidAddress => String::from_str("Invalid address"),
            SyncError::NotConnected => String::from_str("Not connected"),
        }
    }
}

} // verus!
