//! Transport-agnostic client runtime for the Signal Fish signaling
//! protocol.
//!
//! The crate verifies the protocol's logic end to end: the JSON text codec
//! (`json`), identifiers (`ids`), the wire message model with its round-trip
//! laws (`protocol`, `protocol_enums`, `error_codes`), the shared connection
//! state (`state`), and the transport loop's decision core (`engine`).  An
//! asynchronous runtime drives the engine over any bidirectional text
//! channel; the engine itself is a pure, verified step function.

pub mod client;
pub mod engine;
pub mod error;
pub mod error_codes;
pub mod event;
pub mod ids;
pub mod json;
pub mod policy;
pub mod protocol;
pub mod protocol_enums;
pub mod state;
pub mod wire;

pub use client::{JoinRoomParams, SignalFishConfig};
pub use error::SignalFishError;
pub use error_codes::ErrorCode;
pub use event::SignalFishEvent;
pub use protocol::{ClientMessage, ServerMessage};
