//! Fixed parameters of the voice pipeline.

use vstd::prelude::*;

verus! {

/// Sample rate of the voice pipeline, in samples per second.
pub const SAMPLE_RATE: u32 = 48000;

/// Samples per audio frame: 20 ms of audio at 48 kHz.
pub const NUM_SAMPLES: u32 = 960;

/// Wire version constant of the media packet header.
pub const RTP_VERSION: u8 = 2;

/// Dynamic payload type carried by every media packet.
pub const RTP_PROFILE_TYPE: u8 = 0x78;

/// Length of the fixed media packet header, in bytes.
pub const RTP_HEADER_LEN: usize = 12;

/// Length of the authentication tag, in bytes.
pub const TAG_SIZE: usize = 16;

/// Width of the cipher nonce, in bytes.
pub const NONCE_SIZE: usize = 24;

/// Largest media packet the transport will build.
pub const MAX_RTP_PACKET_SIZE: usize = 1450;

/// Largest compressed payload that fits a media packet under the widest
/// nonce suffix.
pub const MAX_OPUS_PAYLOAD_SIZE: usize = 1398;

} // verus!
