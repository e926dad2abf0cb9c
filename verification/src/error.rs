//! Error types for the client.

pub use crate::error_codes::ErrorCode;
use vstd::prelude::*;

verus! {

/// Errors that can occur when using the client.
#[derive(Debug)]
pub enum SignalFishError {
    /// Failed to send a message through the transport.
    TransportSend(String),
    /// Failed to receive a message from the transport.
    TransportReceive(String),
    /// The transport connection was closed unexpectedly.
    TransportClosed,
    /// Failed to read or write a protocol message.
    Serialization(String),
    /// An operation that needs an active connection found none.
    NotConnected,
    /// A room operation was attempted outside a room.
    NotInRoom,
    /// The server returned an error message.
    ServerError {
        /// Human-readable error message from the server.
        message: String,
        /// Structured error code, if provided by the server.
        error_code: Option<ErrorCode>,
    },
    /// An operation timed out.
    Timeout,
    /// An input/output fault in the underlying transport.
    Io(String),
}

/// The human-readable text of an error.
pub open spec fn error_msg(e: SignalFishError) -> Seq<char> {
    match e {
        SignalFishError::TransportSend(d) => "transport send error: "@ + d@,
        SignalFishError::TransportReceive(d) => "transport receive error: "@ + d@,
        SignalFishError::TransportClosed => "transport connection closed"@,
        SignalFishError::Serialization(d) => "serialization error: "@ + d@,
        SignalFishError::NotConnected => "not connected to server"@,
        SignalFishError::NotInRoom => "not in a room"@,
        SignalFishError::ServerError { message, error_code } => "server error: "@ + message@,
        SignalFishError::Timeout => "operation timed out"@,
        SignalFishError::Io(d) => "I/O error: "@ + d@,
    }
}

impl SignalFishError {
    /// The human-readable text of this error, exactly as `error_msg` words
    /// it.
    pub fn message(&self) -> (r: String)
        ensures
            r@ == error_msg(*self),
    {
        match self {
            SignalFishError::TransportSend(d) => {
                let mut s = String::from_str("transport send error: ");
                s.append(d.as_str());
                s
            }
            SignalFishError::TransportReceive(d) => {
                let mut s = String::from_str("transport receive error: ");
                s.append(d.as_str());
                s
            }
            SignalFishError::TransportClosed => String::from_str(
                "transport connection closed",
            ),
            SignalFishError::Serialization(d) => {
                let mut s = String::from_str("serialization error: ");
                s.append(d.as_str());
                s
            }
            SignalFishError::NotConnected => String::from_str("not connected to server"),
            SignalFishError::NotInRoom => String::from_str("not in a room"),
            SignalFishError::ServerError { message, .. } => {
                let mut s = String::from_str("server error: ");
                s.append(message.as_str());
                s
            }
            SignalFishError::Timeout => String::from_str("operation timed out"),
            SignalFishError::Io(d) => {
                let mut s = String::from_str("I/O error: ");
                s.append(d.as_str());
                s
            }
        }
    }
}

} // verus!
