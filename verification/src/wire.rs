//! Byte-level framing of the media transport: big-endian helpers, the
//! fixed media-packet header, demultiplexing of inbound datagrams, the
//! header-extension skipper, and the address-discovery packet.

use core::ops::Range;
use vstd::prelude::*;
use vstd::arithmetic::div_mod::lemma_fundamental_div_mod;
use vstd::slice::{slice_subrange, slice_to_vec};

use crate::constants::{RTP_HEADER_LEN, RTP_PROFILE_TYPE};
use crate::DiscordError;

verus! {

/// Big-endian bytes of a 16-bit value.
pub open spec fn be16(x: u16) -> Seq<u8> {
    seq![(x / 256) as u8, (x % 256) as u8]
}

/// Big-endian bytes of a 32-bit value.
pub open spec fn be32(x: u32) -> Seq<u8> {
    seq![
        (x / 256 / 256 / 256) as u8,
        (x / 256 / 256 % 256) as u8,
        (x / 256 % 256) as u8,
        (x % 256) as u8,
    ]
}

/// Appends the big-endian bytes of `x` to `out`.
pub fn push_be16(out: &mut Vec<u8>, x: u16)
    ensures
        final(out)@ == old(out)@ + be16(x),
{
    out.push((x / 256) as u8);
    out.push((x % 256) as u8);
    assert(out@ =~= old(out)@ + be16(x));
}

/// Appends the big-endian bytes of `x` to `out`.
pub fn push_be32(out: &mut Vec<u8>, x: u32)
    ensures
        final(out)@ == old(out)@ + be32(x),
{
    let b0 = x / 256 / 256 / 256;
    let b1 = x / 256 / 256 % 256;
    let b2 = x / 256 % 256;
    let b3 = x % 256;
    out.push(b0 as u8);
    out.push(b1 as u8);
    out.push(b2 as u8);
    out.push(b3 as u8);
    assert(out@ =~= old(out)@ + be32(x));
}

/// The 16-bit value written as the two bytes `b0 b1`, big-endian.
pub open spec fn from_be16(b0: u8, b1: u8) -> u16 {
    (b0 * 256 + b1) as u16
}

/// The 32-bit value written as the four bytes `b0 b1 b2 b3`, big-endian.
pub open spec fn from_be32(b0: u8, b1: u8, b2: u8, b3: u8) -> u32 {
    (b0 * 0x1000000 + b1 * 0x10000 + b2 * 256 + b3) as u32
}

/// Reads a big-endian 16-bit value at offset `i`.
pub fn read_be16(bytes: &[u8], i: usize) -> (r: u16)
    requires
        i + 2 <= bytes@.len(),
    ensures
        r == from_be16(bytes@[i as int], bytes@[i + 1]),
{
    let b0 = bytes[i];
    let b1 = bytes[i + 1];
    b0 as u16 * 256 + b1 as u16
}

/// Reads a big-endian 32-bit value at offset `i`.
pub fn read_be32(bytes: &[u8], i: usize) -> (r: u32)
    requires
        i + 4 <= bytes@.len(),
    ensures
        r == from_be32(bytes@[i as int], bytes@[i + 1], bytes@[i + 2], bytes@[i + 3]),
{
    let b0 = bytes[i];
    let b1 = bytes[i + 1];
    let b2 = bytes[i + 2];
    let b3 = bytes[i + 3];
    b0 as u32 * 0x1000000 + b1 as u32 * 0x10000 + b2 as u32 * 256 + b3 as u32
}

/// Big-endian encoding and decoding of 16-bit values invert each other.
pub proof fn lemma_be16_roundtrip(x: u16)
    ensures
        from_be16(be16(x)[0], be16(x)[1]) == x,
{
    lemma_fundamental_div_mod(x as int, 256);
}

/// Big-endian encoding and decoding of 32-bit values invert each other.
pub proof fn lemma_be32_roundtrip(x: u32)
    ensures
        from_be32(be32(x)[0], be32(x)[1], be32(x)[2], be32(x)[3]) == x,
{
    lemma_fundamental_div_mod(x as int, 256);
    lemma_fundamental_div_mod(x as int / 256, 256);
    lemma_fundamental_div_mod(x as int / 256 / 256, 256);
}

/// True exactly when the two byte slices hold the same bytes.
pub fn bytes_eq(a: &[u8], b: &[u8]) -> (r: bool)
    ensures
        r <==> a@ == b@,
{
    if a.len() != b.len() {
        proof {
            assert(a@.len() != b@.len());
        }
        return false;
    }
    let n = a.len();
    let mut i: usize = 0;
    while i < n
        invariant
            n == a@.len() == b@.len(),
            0 <= i <= n,
            forall|j: int| 0 <= j < i ==> a@[j] == b@[j],
        decreases n - i,
    {
        if a[i] != b[i] {
            return false;
        }
        i += 1;
    }
    proof {
        assert(a@ =~= b@);
    }
    true
}

/// Copies `src[start..end]` into a fresh vector.
pub fn copy_range(src: &[u8], start: usize, end: usize) -> (r: Vec<u8>)
    requires
        start <= end <= src@.len(),
    ensures
        r@ == src@.subrange(start as int, end as int),
{
    slice_to_vec(slice_subrange(src, start, end))
}

/// Appends all of `src` to `dst`.
pub fn append_bytes(dst: &mut Vec<u8>, src: &[u8])
    ensures
        final(dst)@ == old(dst)@ + src@,
{
    dst.extend_from_slice(src);
    assert(dst@ =~= old(dst)@ + src@);
}

/// The fixed media-packet header: version and profile marker, then the
/// sequence number, the timestamp and the stream source id, big-endian.
pub open spec fn rtp_header_spec(sequence: u16, timestamp: u32, ssrc: u32) -> Seq<u8> {
    seq![0x80u8, RTP_PROFILE_TYPE] + be16(sequence) + be32(timestamp) + be32(ssrc)
}

/// Builds the 12-byte media-packet header.
pub fn build_rtp_header(sequence: u16, timestamp: u32, ssrc: u32) -> (r: Vec<u8>)
    ensures
        r@ == rtp_header_spec(sequence, timestamp, ssrc),
        r@.len() == RTP_HEADER_LEN,
{
    let mut out: Vec<u8> = Vec::new();
    out.push(0x80);
    out.push(RTP_PROFILE_TYPE);
    push_be16(&mut out, sequence);
    push_be32(&mut out, timestamp);
    push_be32(&mut out, ssrc);
    proof {
        assert(out@ =~= rtp_header_spec(sequence, timestamp, ssrc));
    }
    out
}

/// Fields of a media-packet header.
pub struct RtpHeaderFields {
    pub sequence: u16,
    pub timestamp: u32,
    pub ssrc: u32,
}

/// Reads the sequence number, timestamp and stream source id out of a
/// media packet.
pub fn parse_rtp_header(packet: &[u8]) -> (r: RtpHeaderFields)
    requires
        packet@.len() >= RTP_HEADER_LEN,
    ensures
        r.sequence == from_be16(packet@[2], packet@[3]),
        r.timestamp == from_be32(packet@[4], packet@[5], packet@[6], packet@[7]),
        r.ssrc == from_be32(packet@[8], packet@[9], packet@[10], packet@[11]),
{
    RtpHeaderFields {
        sequence: read_be16(packet, 2),
        timestamp: read_be32(packet, 4),
        ssrc: read_be32(packet, 8),
    }
}

/// A header built by `build_rtp_header` parses back to its inputs.
pub proof fn lemma_rtp_header_roundtrip(sequence: u16, timestamp: u32, ssrc: u32)
    ensures
        ({
            let h = rtp_header_spec(sequence, timestamp, ssrc);
            &&& h.len() == RTP_HEADER_LEN
            &&& from_be16(h[2], h[3]) == sequence
            &&& from_be32(h[4], h[5], h[6], h[7]) == timestamp
            &&& from_be32(h[8], h[9], h[10], h[11]) == ssrc
        }),
{
    let h = rtp_header_spec(sequence, timestamp, ssrc);
    assert(h[2] == be16(sequence)[0] && h[3] == be16(sequence)[1]);
    lemma_be16_roundtrip(sequence);
    assert(h[4] == be32(timestamp)[0] && h[5] == be32(timestamp)[1] && h[6] == be32(timestamp)[2]
        && h[7] == be32(timestamp)[3]);
    lemma_be32_roundtrip(timestamp);
    assert(h[8] == be32(ssrc)[0] && h[9] == be32(ssrc)[1] && h[10] == be32(ssrc)[2] && h[11]
        == be32(ssrc)[3]);
    lemma_be32_roundtrip(ssrc);
}

/// What `skip_over_extensions` returns for a payload window
/// `[start, end)` of the packet `p`: a window past the optional
/// header-extension block, or nothing when the block is truncated.
///
/// The block is announced by the two bytes `0xBE 0xDE`, followed by a
/// big-endian entry count, each entry four bytes wide.
pub open spec fn skip_ext_spec(p: Seq<u8>, start: int, end: int) -> Option<(int, int)>
    recommends
        0 <= start <= end <= p.len(),
{
    let n = end - start;
    if n < 1 {
        None
    } else if p[start] != 0xBE {
        Some((start, end))
    } else if n < 2 {
        None
    } else if p[start + 1] != 0xDE {
        Some((start, end))
    } else if n < 4 {
        None
    } else {
        let entries = p[start + 2] * 256 + p[start + 3];
        if n - 4 >= entries * 4 {
            Some((start + 4 + entries * 4, end))
        } else {
            None
        }
    }
}

/// Narrows the payload window of a media packet past the
/// header-extension block, if one is present.
///
/// Without the two marker bytes the window is returned unchanged; with
/// them, the marker, the entry count and four bytes per declared entry
/// are skipped.  A window too short for what the block declares yields
/// nothing.
pub fn skip_over_extensions(packet: &Vec<u8>, payload: Range<usize>) -> (r: Option<Range<usize>>)
    requires
        payload.start <= payload.end <= packet@.len(),
    ensures
        match r {
            Some(rg) => {
                &&& skip_ext_spec(packet@, payload.start as int, payload.end as int) == Some(
                    (rg.start as int, rg.end as int),
                )
                &&& rg.start <= rg.end <= packet@.len()
            },
            None => skip_ext_spec(packet@, payload.start as int, payload.end as int) is None,
        },
{
    let start = payload.start;
    let end = payload.end;
    let n = end - start;
    if n < 1 {
        return None;
    }
    if packet[start] != 0xBE {
        return Some(start..end);
    }
    if n < 2 {
        return None;
    }
    if packet[start + 1] != 0xDE {
        return Some(start..end);
    }
    if n < 4 {
        return None;
    }
    let entries = packet[start + 2] as usize * 256 + packet[start + 3] as usize;
    if n - 4 >= entries * 4 {
        Some((start + 4 + entries * 4)..end)
    } else {
        None
    }
}

/// Kind of an inbound datagram, told apart by the packet-type byte.
#[derive(Copy, Clone, Debug, PartialEq, Eq, Structural)]
pub enum DemuxedKind {
    /// A media packet.
    Rtp,
    /// A control packet.
    Rtcp,
}

/// Control packets carry a packet-type byte in `192..=223`; media
/// packets do not.
pub open spec fn is_rtcp_type_byte(b: u8) -> bool {
    192 <= b <= 223
}

/// Tells a media datagram from a control datagram.
///
/// Datagrams shorter than a media-packet header cannot be told apart
/// and are rejected.
pub fn classify_datagram(packet: &[u8]) -> (r: Option<DemuxedKind>)
    ensures
        packet@.len() < RTP_HEADER_LEN ==> r is None,
        packet@.len() >= RTP_HEADER_LEN ==> r == Some(
            if is_rtcp_type_byte(packet@[1]) {
                DemuxedKind::Rtcp
            } else {
                DemuxedKind::Rtp
            },
        ),
{
    if packet.len() < RTP_HEADER_LEN {
        return None;
    }
    let type_byte = packet[1];
    if 192 <= type_byte && type_byte <= 223 {
        Some(DemuxedKind::Rtcp)
    } else {
        Some(DemuxedKind::Rtp)
    }
}

/// Total size of an address-discovery packet.
pub const DISCOVERY_PACKET_LEN: usize = 74;

/// An address-discovery request: type `1`, declared length `70`, the
/// stream source id, then a zeroed address field and port.
pub open spec fn discovery_request_spec(ssrc: u32) -> Seq<u8> {
    be16(1) + be16(70) + be32(ssrc) + Seq::new(66, |i: int| 0u8)
}

/// Builds the fixed-size address-discovery request for `ssrc`.
pub fn build_discovery_request(ssrc: u32) -> (r: Vec<u8>)
    ensures
        r@ == discovery_request_spec(ssrc),
        r@.len() == DISCOVERY_PACKET_LEN,
{
    let mut out: Vec<u8> = Vec::new();
    push_be16(&mut out, 1);
    push_be16(&mut out, 70);
    push_be32(&mut out, ssrc);
    let mut i: usize = 0;
    while i < 66
        invariant
            out@.len() == 8 + i,
            0 <= i <= 66,
            out@.subrange(0, 8) == be16(1) + be16(70) + be32(ssrc),
            forall|j: int| 8 <= j < out@.len() ==> out@[j] == 0u8,
        decreases 66 - i,
    {
        out.push(0);
        assert(out@.subrange(0, 8) =~= be16(1) + be16(70) + be32(ssrc));
        i += 1;
    }
    proof {
        assert(out@ =~= discovery_request_spec(ssrc));
    }
    out
}

/// True when position `k` holds the first zero byte of the address
/// field of a discovery packet.
pub open spec fn is_first_address_zero(p: Seq<u8>, k: int) -> bool {
    8 <= k < 72 && p[k] == 0 && (forall|j: int| 8 <= j < k ==> p[j] != 0)
}

/// The externally visible address learned from an address-discovery
/// round trip.
pub struct DiscoveryResponse {
    /// The address text as sent on the wire, without its terminator.
    pub address: Vec<u8>,
    /// The externally visible port.
    pub port: u16,
}

/// Reads an address-discovery response.
///
/// Accepts exactly the packets of the fixed size whose type field says
/// "response" and whose address field holds a terminating zero; the
/// address bytes before the terminator and the trailing port are
/// returned.
pub fn parse_discovery_response(packet: &[u8]) -> (r: Result<DiscoveryResponse, DiscordError>)
    ensures
        match r {
            Ok(resp) => {
                &&& packet@.len() >= DISCOVERY_PACKET_LEN
                &&& from_be16(packet@[0], packet@[1]) == 2
                &&& exists|k: int|
                    #[trigger] is_first_address_zero(packet@, k) && resp.address@
                        == packet@.subrange(8, k)
                &&& resp.port == from_be16(packet@[72], packet@[73])
            },
            Err(e) => {
                &&& e is InternalError
                &&& (packet@.len() < DISCOVERY_PACKET_LEN || from_be16(packet@[0], packet@[1]) != 2
                    || (forall|j: int| 8 <= j < 72 ==> packet@[j] != 0))
            },
        },
{
    if packet.len() < DISCOVERY_PACKET_LEN {
        return Err(DiscordError::InternalError { cause: "discovery response too short".to_owned() });
    }
    if read_be16(packet, 0) != 2 {
        return Err(DiscordError::InternalError { cause: "unexpected discovery response type".to_owned() });
    }
    let mut k: usize = 8;
    while k < 72
        invariant
            8 <= k <= 72,
            packet@.len() >= 74,
            from_be16(packet@[0], packet@[1]) == 2,
            forall|j: int| 8 <= j < k ==> packet@[j] != 0,
        decreases 72 - k,
    {
        if packet[k] == 0 {
            let address = copy_range(packet, 8, k);
            let port = read_be16(packet, 72);
            proof {
                let kk = k as int;
                assert(is_first_address_zero(packet@, kk));
                assert(address@ == packet@.subrange(8, kk));
            }
            return Ok(DiscoveryResponse { address, port });
        }
        k += 1;
    }
    Err(DiscordError::InternalError { cause: "discovery address not terminated".to_owned() })
}

} // verus!
