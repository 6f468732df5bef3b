//! Error kinds of the control and data planes.
//!
//! Control-plane errors surface to the caller; data-plane conditions
//! (overflow, underrun, invalid packets, late and lost frames) are
//! absorbed locally as counters and never reach these types.

use vstd::prelude::*;

verus! {

/// Errors surfaced by the track manager.
#[derive(Debug, Clone, PartialEq, Eq, Structural)]
pub enum TrackError {
    /// No track with this id exists.
    NotFound(u8),
    /// A track with this id already exists.
    AlreadyExists(u8),
    /// The manager is at its track capacity.
    MaxTracksReached(usize),
}

impl TrackError {
    /// A short description of the error.
    pub fn message(&self) -> (r: String)
        ensures
            self is NotFound ==> r@ == "track not found"@,
            self is AlreadyExists ==> r@ == "track id already exists"@,
            self is MaxTracksReached ==> r@ == "maximum track count reached"@,
    {
        match self {
            TrackError::NotFound(_) => owned_message("track not found"),
            TrackError::AlreadyExists(_) => owned_message("track id already exists"),
            TrackError::MaxTracksReached(_) => owned_message("maximum track count reached"),
        }
    }
}

/// Errors surfaced by the network edge.
#[derive(Debug, Clone)]
pub enum NetworkError {
    /// Socket bind or configuration failed.
    BindFailed(String),
    /// A datagram could not be sent.
    SendFailed(String),
    /// A datagram could not be received.
    ReceiveFailed(String),
}

/// Errors surfaced by the audio engine edge.
#[derive(Debug, Clone)]
pub enum AudioError {
    /// The audio engine reported a stream fault.
    StreamError(String),
    /// No device with the given id exists.
    DeviceNotFound(String),
}

/// An owned copy of a static message.
fn owned_message(s: &str) -> (r: String)
    ensures
        r@ == s@,
{
    s.to_owned()
}

} // verus!
