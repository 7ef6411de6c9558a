//! The secure media transport, short of the socket itself.
//!
//! The runtime around the library binds the socket, performs the
//! address-discovery round trip with `wire::build_discovery_request`
//! and `wire::parse_discovery_response`, and moves datagrams; this
//! module owns everything between plain payloads and wire bytes:
//! sequence stamping, encryption, demultiplexing and decryption.

use core::ops::Range;
use vstd::prelude::*;

use crate::constants::{MAX_OPUS_PAYLOAD_SIZE, RTP_HEADER_LEN, TAG_SIZE};
use crate::crypto::{
    decrypt_wire_spec, suffix_len_spec, EncryptionMode, VoiceDecryption, VoiceEncryption,
};
use crate::wire::{
    append_bytes, build_rtp_header, classify_datagram, copy_range, from_be16, from_be32,
    is_rtcp_type_byte, parse_rtp_header, rtp_header_spec, DemuxedKind,
};
use crate::DiscordError;

verus! {

/// Length of the clear header of a control packet.
pub const RTCP_HEADER_LEN: usize = 8;

/// A decrypted media packet: its header fields, the whole packet with
/// the payload decrypted in `buffer`, and the window of `buffer` that
/// holds the payload.
pub struct ReceivedRtpPacket {
    pub sequence_number: u16,
    pub timestamp: u32,
    pub ssrc: u32,
    pub buffer: Vec<u8>,
    pub data_range: Range<usize>,
}

/// A decrypted control packet: its clear header followed by the
/// decrypted payload.
pub struct ReceivedRtcpPacket {
    pub decrypted_buffer: Vec<u8>,
}

/// One decrypted inbound datagram.
pub enum VoicePacket {
    Rtp(ReceivedRtpPacket),
    Rtcp(ReceivedRtcpPacket),
}

/// The transport's cipher and stamping state.  The stream source id is
/// fixed at construction; the sequence number wraps at 16 bits; no
/// packet is sealed or opened before a key is set.
pub struct VoiceDataChannel {
    ssrc: u32,
    sequence_no: u16,
    crypto: Option<(VoiceEncryption, VoiceDecryption)>,
}

impl VoiceDataChannel {
    /// Both cipher halves agree with the stated strategy and key.
    pub closed spec fn has_key(&self, mode: EncryptionMode, key: Seq<u8>) -> bool {
        match self.crypto {
            Some((enc, dec)) => {
                &&& enc.wf()
                &&& dec.wf()
                &&& enc.mode_spec() == mode
                &&& dec.mode_spec() == mode
                &&& enc.key_view() == key
                &&& dec.key_view() == key
            },
            None => false,
        }
    }

    /// Whether a key has been installed.
    pub closed spec fn is_keyed(&self) -> bool {
        self.crypto is Some
    }

    /// The strategy of the installed key.
    pub closed spec fn mode_spec(&self) -> EncryptionMode
        recommends
            self.is_keyed(),
    {
        self.crypto.unwrap().0.mode_spec()
    }

    /// The installed key.
    pub closed spec fn key_view(&self) -> Seq<u8>
        recommends
            self.is_keyed(),
    {
        self.crypto.unwrap().0.key_view()
    }

    /// Both cipher halves are well formed and agree.
    pub closed spec fn wf(&self) -> bool {
        self.is_keyed() ==> self.has_key(self.mode_spec(), self.key_view())
    }

    /// The fixed stream source id.
    pub closed spec fn ssrc_spec(&self) -> u32 {
        self.ssrc
    }

    /// The sequence number the next packet will be stamped with.
    pub closed spec fn sequence_spec(&self) -> u16 {
        self.sequence_no
    }

    /// The fixed stream source id.
    pub fn ssrc(&self) -> (r: u32)
        ensures
            r == self.ssrc_spec(),
    {
        self.ssrc
    }

    /// A fresh transport for one stream source id, with no key and an
    /// arbitrary initial sequence number.
    pub fn new(ssrc: u32) -> (r: Self)
        ensures
            r.wf(),
            !r.is_keyed(),
            r.ssrc_spec() == ssrc,
    {
        let seed = crate::crypto::random_u32();
        VoiceDataChannel { ssrc, sequence_no: (seed % 0x10000) as u16, crypto: None }
    }

    /// Installs a freshly constructed cipher pair, replacing any prior
    /// state.
    pub fn set_key(&mut self, mode: EncryptionMode, key: Vec<u8>)
        requires
            key@.len() == 32,
        ensures
            final(self).wf(),
            final(self).has_key(mode, key@),
            final(self).is_keyed(),
            final(self).mode_spec() == mode,
            final(self).key_view() == key@,
            final(self).ssrc_spec() == old(self).ssrc_spec(),
            final(self).sequence_spec() == old(self).sequence_spec(),
    {
        let key_copy = copy_range(key.as_slice(), 0, key.len());
        proof {
            assert(key_copy@ =~= key@);
        }
        let enc = VoiceEncryption::new(mode, key_copy);
        let dec = VoiceDecryption::new(mode, key);
        self.crypto = Some((enc, dec));
    }

    /// Builds and seals one outbound media packet.
    ///
    /// The packet carries this call's sequence number, the given
    /// timestamp and the stream source id, and decrypts back to the
    /// payload.  The sequence number advances, wrapping, on every call.
    /// Fails exactly when no key is set or the payload exceeds the
    /// largest sendable size.
    pub fn prepare_voice_packet(&mut self, timestamp: u32, voice: &Vec<u8>) -> (r: Result<
        Vec<u8>,
        DiscordError,
    >)
        requires
            old(self).wf(),
        ensures
            final(self).wf(),
            final(self).ssrc_spec() == old(self).ssrc_spec(),
            final(self).is_keyed() == old(self).is_keyed(),
            old(self).is_keyed() ==> {
                &&& final(self).mode_spec() == old(self).mode_spec()
                &&& final(self).key_view() == old(self).key_view()
            },
            final(self).sequence_spec() == old(self).sequence_spec().wrapping_add(1),
            r is Ok <==> old(self).is_keyed() && voice@.len() <= MAX_OPUS_PAYLOAD_SIZE,
            r matches Ok(p) ==> {
                &&& p@.len() == RTP_HEADER_LEN + TAG_SIZE + voice@.len() + suffix_len_spec(
                    old(self).mode_spec(),
                )
                &&& p@.subrange(0, RTP_HEADER_LEN as int) == rtp_header_spec(
                    old(self).sequence_spec(),
                    timestamp,
                    old(self).ssrc_spec(),
                )
                &&& decrypt_wire_spec(
                    old(self).mode_spec(),
                    old(self).key_view(),
                    p@,
                    RTP_HEADER_LEN as int,
                ) == Some(voice@)
            },
    {
        let seq_no = self.sequence_no;
        self.sequence_no = seq_no.wrapping_add(1);
        if voice.len() > MAX_OPUS_PAYLOAD_SIZE {
            return Err(DiscordError::InternalError { cause: "payload too large".to_owned() });
        }
        match &mut self.crypto {
            Some((enc, _)) => {
                let header = build_rtp_header(seq_no, timestamp, self.ssrc);
                let packet = enc.encrypt_packet(&header, voice);
                Ok(packet)
            },
            None => Err(DiscordError::InternalError { cause: "crypto not set up".to_owned() }),
        }
    }

    /// Decrypts one inbound datagram.
    ///
    /// A datagram is told apart as media or control by its type byte,
    /// then opened under the installed key.  Control packets keep their
    /// clear header in front of the decrypted payload; media packets
    /// keep the whole packet with the payload window marked.  Fails
    /// when no key is set, the datagram is too short, or it does not
    /// authenticate.
    pub fn process_datagram(&self, datagram: &Vec<u8>) -> (r: Result<VoicePacket, DiscordError>)
        requires
            self.wf(),
        ensures
            r is Ok ==> self.is_keyed(),
            r is Ok <==> self.is_keyed() && datagram@.len() >= RTP_HEADER_LEN && (if is_rtcp_type_byte(
                datagram@[1],
            ) {
                decrypt_wire_spec(
                    self.mode_spec(),
                    self.key_view(),
                    datagram@,
                    RTCP_HEADER_LEN as int,
                ) is Some
            } else {
                decrypt_wire_spec(
                    self.mode_spec(),
                    self.key_view(),
                    datagram@,
                    RTP_HEADER_LEN as int,
                ) is Some
            }),
            r matches Ok(p) ==> (p is Rtp <==> !is_rtcp_type_byte(datagram@[1])),
            r matches Ok(p) ==> match p {
                VoicePacket::Rtp(rtp) => {
                    &&& decrypt_wire_spec(
                        self.mode_spec(),
                        self.key_view(),
                        datagram@,
                        RTP_HEADER_LEN as int,
                    ) matches Some(payload)
                    &&& rtp.buffer@ == datagram@.subrange(0, RTP_HEADER_LEN as int) + payload
                    &&& rtp.data_range.start == RTP_HEADER_LEN
                    &&& rtp.data_range.end == RTP_HEADER_LEN + payload.len()
                    &&& rtp.sequence_number == from_be16(datagram@[2], datagram@[3])
                    &&& rtp.timestamp == from_be32(
                        datagram@[4],
                        datagram@[5],
                        datagram@[6],
                        datagram@[7],
                    )
                    &&& rtp.ssrc == from_be32(
                        datagram@[8],
                        datagram@[9],
                        datagram@[10],
                        datagram@[11],
                    )
                },
                VoicePacket::Rtcp(rtcp) => {
                    &&& decrypt_wire_spec(
                        self.mode_spec(),
                        self.key_view(),
                        datagram@,
                        RTCP_HEADER_LEN as int,
                    ) matches Some(payload)
                    &&& rtcp.decrypted_buffer@ == datagram@.subrange(0, RTCP_HEADER_LEN as int)
                        + payload
                },
            },
    {
        let crypto = match &self.crypto {
            Some(pair) => pair,
            None => {
                return Err(
                    DiscordError::InternalError {
                        cause: "received packet, but crypto was not set up".to_owned(),
                    },
                );
            },
        };
        let decrypt = &crypto.1;
        match classify_datagram(datagram.as_slice()) {
            None => Err(DiscordError::InternalError { cause: "datagram too small".to_owned() }),
            Some(DemuxedKind::Rtp) => {
                let payload = decrypt.decrypt_packet(datagram, RTP_HEADER_LEN)?;
                let fields = parse_rtp_header(datagram.as_slice());
                let mut buffer = copy_range(datagram.as_slice(), 0, RTP_HEADER_LEN);
                append_bytes(&mut buffer, payload.as_slice());
                let data_end = buffer.len();
                Ok(
                    VoicePacket::Rtp(
                        ReceivedRtpPacket {
                            sequence_number: fields.sequence,
                            timestamp: fields.timestamp,
                            ssrc: fields.ssrc,
                            buffer,
                            data_range: RTP_HEADER_LEN..data_end,
                        },
                    ),
                )
            },
            Some(DemuxedKind::Rtcp) => {
                let payload = decrypt.decrypt_packet(datagram, RTCP_HEADER_LEN)?;
                let mut buffer = copy_range(datagram.as_slice(), 0, RTCP_HEADER_LEN);
                append_bytes(&mut buffer, payload.as_slice());
                Ok(VoicePacket::Rtcp(ReceivedRtcpPacket { decrypted_buffer: buffer }))
            },
        }
    }
}

} // verus!
