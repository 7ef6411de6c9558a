//! Byte-level framing, mode selection and the secure transport.

use chan_discord::call::CallHandle;
use chan_discord::constants::MAX_OPUS_PAYLOAD_SIZE;
use chan_discord::crypto::EncryptionMode;
use chan_discord::crypto::select_mode;
use chan_discord::transport::{VoiceDataChannel, VoicePacket};
use chan_discord::wire::{
    build_discovery_request, build_rtp_header, classify_datagram, parse_discovery_response,
    parse_rtp_header, skip_over_extensions, DemuxedKind,
};

#[test]
fn skip_over_extensions_valid() {
    let data = hex::decode("BEDE000232DF690410FF9000F8FFFE").unwrap();
    let range = skip_over_extensions(&data, 0..data.len());
    assert_eq!(range, Some(12..data.len()));
}

#[test]
fn skip_over_extensions_absent_marker() {
    let data = vec![0x11u8, 0x22, 0x33, 0x44];
    assert_eq!(skip_over_extensions(&data, 0..4), Some(0..4));
}

#[test]
fn skip_over_extensions_truncated_block() {
    // Marker and a count of two entries, but only three bytes follow.
    let data = vec![0xBEu8, 0xDE, 0x00, 0x02, 0x01, 0x02, 0x03];
    assert_eq!(skip_over_extensions(&data, 0..data.len()), None);
}

#[test]
fn skip_over_extensions_window_offset() {
    let mut data = vec![0u8; 3];
    data.extend_from_slice(&[0xBE, 0xDE, 0x00, 0x01, 9, 9, 9, 9, 0xAA]);
    assert_eq!(skip_over_extensions(&data, 3..data.len()), Some(11..data.len()));
}

#[test]
fn nonce_mode_names_round_trip() {
    for mode in [EncryptionMode::Normal, EncryptionMode::Suffix, EncryptionMode::Lite] {
        let name = mode.name();
        assert_eq!(EncryptionMode::from_wire_name(name.as_bytes()), Some(mode));
    }
    assert_eq!(EncryptionMode::from_wire_name(b"aes256_gcm"), None);
}

#[test]
fn nonce_mode_entropy_ranking() {
    assert!(
        EncryptionMode::Suffix.effective_nonce_entropy()
            > EncryptionMode::Normal.effective_nonce_entropy()
    );
    assert_eq!(
        EncryptionMode::Normal.effective_nonce_entropy(),
        EncryptionMode::Lite.effective_nonce_entropy()
    );
}

#[test]
fn mode_selection_prefers_suffix() {
    let names = vec![
        b"xsalsa20_poly1305".to_vec(),
        b"xsalsa20_poly1305_suffix".to_vec(),
    ];
    assert_eq!(select_mode(&names), Some(EncryptionMode::Suffix));
    let reversed = vec![
        b"xsalsa20_poly1305_suffix".to_vec(),
        b"xsalsa20_poly1305".to_vec(),
    ];
    assert_eq!(select_mode(&reversed), Some(EncryptionMode::Suffix));
}

#[test]
fn mode_selection_breaks_ties_deterministically() {
    // Equal entropy: the later advertised entry wins.
    let names = vec![
        b"xsalsa20_poly1305".to_vec(),
        b"xsalsa20_poly1305_lite".to_vec(),
    ];
    assert_eq!(select_mode(&names), Some(EncryptionMode::Lite));
    let reversed = vec![
        b"xsalsa20_poly1305_lite".to_vec(),
        b"xsalsa20_poly1305".to_vec(),
    ];
    assert_eq!(select_mode(&reversed), Some(EncryptionMode::Normal));
    assert_eq!(select_mode(&vec![b"unknown".to_vec()]), None);
    assert_eq!(select_mode(&Vec::new()), None);
}

#[test]
fn rtp_header_builds_and_parses_back() {
    let header = build_rtp_header(0xABCD, 0xDEADBEEF, 0x12345678);
    assert_eq!(header.len(), 12);
    assert_eq!(header[0], 0x80);
    assert_eq!(header[1], 0x78);
    let fields = parse_rtp_header(&header);
    assert_eq!(fields.sequence, 0xABCD);
    assert_eq!(fields.timestamp, 0xDEADBEEF);
    assert_eq!(fields.ssrc, 0x12345678);
}

#[test]
fn classify_datagram_by_type_byte() {
    let mut rtp = vec![0x80u8, 0x78];
    rtp.resize(12, 0);
    assert_eq!(classify_datagram(&rtp), Some(DemuxedKind::Rtp));
    let mut rtcp = vec![0x80u8, 0xC9];
    rtcp.resize(12, 0);
    assert_eq!(classify_datagram(&rtcp), Some(DemuxedKind::Rtcp));
    assert_eq!(classify_datagram(&[0x80u8, 0x78, 0, 0]), None);
}

#[test]
fn discovery_request_has_fixed_shape() {
    let req = build_discovery_request(0xA1B2C3D4);
    assert_eq!(req.len(), 74);
    assert_eq!(&req[0..2], &[0, 1]);
    assert_eq!(&req[2..4], &[0, 70]);
    assert_eq!(&req[4..8], &[0xA1, 0xB2, 0xC3, 0xD4]);
    assert!(req[8..].iter().all(|&b| b == 0));
}

#[test]
fn discovery_response_parses_address_and_port() {
    let mut resp = vec![0u8, 2, 0, 70];
    resp.extend_from_slice(&[0, 0, 0, 7]);
    let mut address = [0u8; 64];
    address[..11].copy_from_slice(b"203.0.113.5");
    resp.extend_from_slice(&address);
    resp.extend_from_slice(&[0x1F, 0x40]);
    let parsed = parse_discovery_response(&resp).unwrap();
    assert_eq!(parsed.address, b"203.0.113.5".to_vec());
    assert_eq!(parsed.port, 8000);
}

#[test]
fn discovery_response_rejects_wrong_type_and_unterminated_address() {
    let mut resp = vec![0u8, 1, 0, 70];
    resp.resize(74, 0);
    assert!(parse_discovery_response(&resp).is_err());
    let mut unterminated = vec![0u8, 2, 0, 70, 0, 0, 0, 7];
    unterminated.resize(74, 1);
    assert!(parse_discovery_response(&unterminated).is_err());
    assert!(parse_discovery_response(&[0u8, 2]).is_err());
}

fn transport_round_trip(mode: EncryptionMode, payload: Vec<u8>) {
    let key: Vec<u8> = (0u8..32).collect();
    let mut sender = VoiceDataChannel::new(0x1001);
    sender.set_key(mode, key.clone());
    let mut receiver = VoiceDataChannel::new(0x2002);
    receiver.set_key(mode, key);

    let packet = sender.prepare_voice_packet(4242, &payload).unwrap();
    assert_eq!(packet.len(), 12 + 16 + payload.len() + mode.suffix_len());
    match receiver.process_datagram(&packet).unwrap() {
        VoicePacket::Rtp(rtp) => {
            assert_eq!(rtp.timestamp, 4242);
            assert_eq!(rtp.ssrc, 0x1001);
            assert_eq!(&rtp.buffer[rtp.data_range.clone()], payload.as_slice());
        }
        VoicePacket::Rtcp(_) => panic!("media packet demultiplexed as control"),
    }
}

#[test]
fn encrypt_then_decrypt_round_trip_all_modes() {
    for mode in [EncryptionMode::Normal, EncryptionMode::Suffix, EncryptionMode::Lite] {
        transport_round_trip(mode, vec![1, 2, 3, 4, 5]);
        transport_round_trip(mode, Vec::new());
        transport_round_trip(mode, vec![0xAB; MAX_OPUS_PAYLOAD_SIZE]);
    }
}

#[test]
fn transport_rejects_unkeyed_oversized_and_tampered() {
    let mut unkeyed = VoiceDataChannel::new(1);
    assert!(unkeyed.prepare_voice_packet(0, &vec![1, 2, 3]).is_err());

    let key = vec![7u8; 32];
    let mut chan = VoiceDataChannel::new(1);
    chan.set_key(EncryptionMode::Normal, key.clone());
    assert!(chan.prepare_voice_packet(0, &vec![0; MAX_OPUS_PAYLOAD_SIZE + 1]).is_err());

    let mut packet = chan.prepare_voice_packet(0, &vec![9; 8]).unwrap();
    let last = packet.len() - 1;
    packet[last] ^= 0xFF;
    assert!(chan.process_datagram(&packet).is_err());
    assert!(chan.process_datagram(&vec![0x80u8, 0x78]).is_err());
}

#[test]
fn sequence_numbers_advance_per_packet() {
    let key = vec![3u8; 32];
    let mut chan = VoiceDataChannel::new(5);
    chan.set_key(EncryptionMode::Normal, key);
    let first = chan.prepare_voice_packet(0, &vec![1]).unwrap();
    let second = chan.prepare_voice_packet(0, &vec![1]).unwrap();
    let seq_a = u16::from_be_bytes([first[2], first[3]]);
    let seq_b = u16::from_be_bytes([second[2], second[3]]);
    assert_eq!(seq_b, seq_a.wrapping_add(1));
}

#[test]
fn destination_strings_parse_exactly() {
    assert_eq!(
        CallHandle::parse_destination_addr(b"123/456"),
        Some((123, 456))
    );
    assert_eq!(
        CallHandle::parse_destination_addr(b"18446744073709551615/1"),
        Some((u64::MAX, 1))
    );
    assert_eq!(CallHandle::parse_destination_addr(b"18446744073709551616/1"), None);
    assert_eq!(CallHandle::parse_destination_addr(b"12/34/56"), None);
    assert_eq!(CallHandle::parse_destination_addr(b"abc/5"), None);
    assert_eq!(CallHandle::parse_destination_addr(b"123"), None);
    assert_eq!(CallHandle::parse_destination_addr(b"/5"), None);
    assert_eq!(CallHandle::parse_destination_addr(b"5/"), None);
    assert_eq!(CallHandle::parse_destination_addr(b""), None);
}
