//! Relay core for bridging a telephony channel runtime to a real-time
//! voice-chat network.
//!
//! The library holds the verified logic of the bridge: the secure RTP-like
//! transport framing, the per-speaker jitter buffers and the mixer, the
//! per-call state machines, and the supporting parsers.  The surrounding
//! runtime (sockets, websockets, threads) lives outside the library and
//! hands plain values in and out.

use vstd::prelude::*;

pub mod call;
pub mod constants;
pub mod crypto;
pub mod handle;
pub mod jitter;
pub mod receiver;
pub mod session;
pub mod transport;
pub mod wire;

verus! {

/// Error taxonomy of the relay, surfaced to whichever caller awaited a
/// request.
#[derive(Debug, PartialEq, Eq)]
pub enum DiscordError {
    /// Authentication to the voice platform was rejected up front.
    InvalidCredentials,
    /// Any lower-level failure, wrapped with a description of its cause.
    InternalError { cause: String },
    /// A join raced with an existing active session on the same server.
    AlreadyInChannelOnServer,
    /// The audio encoder failed on a single frame.
    EncodeError,
}

} // verus!
