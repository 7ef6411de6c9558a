//! The jitter buffer, the mixer, and the per-call state machines.

use std::cell::Cell;
use std::rc::Rc;

use chan_discord::call::{
    CallAction, CallEventAction, CallRequest, CallVoiceState, CallWorker, VoiceEvent,
};
use chan_discord::crypto::EncryptionMode;
use chan_discord::jitter::{JitterBuffer, JitterBufferErr, JitterConfig, JitterFrameType};
use chan_discord::receiver::{mix_frames, FetchPacketResult, RtpReceiver};
use chan_discord::session::{ServerEvent, VoiceSession, VoiceSessionState};
use chan_discord::transport::{ReceivedRtpPacket, VoiceDataChannel, VoicePacket};

#[test]
fn jitter_buffer_releases_in_timestamp_order() {
    let mut buf: JitterBuffer<u32> = JitterBuffer::new(JitterConfig {
        max_frames: 10,
        target_extra: 0,
    });
    assert!(matches!(
        buf.put(1, JitterFrameType::Voice, 20, 0),
        Err(JitterBufferErr::Scheduled)
    ));
    assert!(matches!(buf.put(2, JitterFrameType::Voice, 20, 20), Ok(())));
    assert!(matches!(buf.put(3, JitterFrameType::Voice, 20, 40), Ok(())));
    assert_eq!(buf.next_frame(), Some(0));
    for (now, want) in [(0i64, 1u32), (20, 2), (40, 3)] {
        match buf.get(now, 20) {
            Ok(frame) => {
                assert_eq!(frame.data, want);
                assert_eq!(frame.duration, 20);
            }
            Err(_) => panic!("expected a frame at time {now}"),
        }
    }
    assert!(matches!(buf.get(60, 20), Err(JitterBufferErr::Empty)));
}

#[test]
fn jitter_buffer_orders_out_of_order_arrivals() {
    let mut buf: JitterBuffer<u32> = JitterBuffer::new(JitterConfig {
        max_frames: 10,
        target_extra: 0,
    });
    let _ = buf.put(3, JitterFrameType::Voice, 20, 40);
    let _ = buf.put(1, JitterFrameType::Voice, 20, 0);
    let _ = buf.put(2, JitterFrameType::Voice, 20, 20);
    let mut seen = Vec::new();
    for now in [100i64, 100, 100] {
        if let Ok(frame) = buf.get(now, 20) {
            seen.push(frame.data);
        }
    }
    assert_eq!(seen, vec![1, 2, 3]);
}

#[test]
fn jitter_buffer_says_when_nothing_is_due() {
    let mut buf: JitterBuffer<u32> = JitterBuffer::new(JitterConfig {
        max_frames: 10,
        target_extra: 0,
    });
    let _ = buf.put(1, JitterFrameType::Voice, 20, 20);
    assert!(matches!(buf.get(10, 20), Err(JitterBufferErr::NoFrame)));
    assert_eq!(buf.next_frame(), Some(20));
}

#[test]
fn jitter_buffer_applies_playout_delay() {
    let mut buf: JitterBuffer<u32> = JitterBuffer::new(JitterConfig {
        max_frames: 10,
        target_extra: 40,
    });
    let _ = buf.put(1, JitterFrameType::Voice, 20, 0);
    assert_eq!(buf.next_frame(), Some(40));
    assert!(matches!(buf.get(39, 20), Err(JitterBufferErr::NoFrame)));
    assert!(buf.get(40, 20).is_ok());
}

#[test]
fn jitter_buffer_drops_frames_behind_the_cursor() {
    let mut buf: JitterBuffer<u32> = JitterBuffer::new(JitterConfig {
        max_frames: 10,
        target_extra: 0,
    });
    let _ = buf.put(1, JitterFrameType::Voice, 20, 40);
    assert!(buf.get(100, 20).is_ok());
    // The cursor sits at 60 now; an older frame is handed back to drop.
    match buf.put(2, JitterFrameType::Voice, 20, 10) {
        Err(JitterBufferErr::Drop { frame }) => assert_eq!(frame.data, 2),
        _ => panic!("late frame should be dropped"),
    }
}

#[test]
fn jitter_buffer_displaces_oldest_when_full() {
    let mut buf: JitterBuffer<u32> = JitterBuffer::new(JitterConfig {
        max_frames: 2,
        target_extra: 0,
    });
    let _ = buf.put(1, JitterFrameType::Voice, 20, 0);
    let _ = buf.put(2, JitterFrameType::Voice, 20, 20);
    match buf.put(3, JitterFrameType::Voice, 20, 40) {
        Err(JitterBufferErr::Drop { frame }) => assert_eq!(frame.data, 1),
        _ => panic!("full buffer should displace its oldest frame"),
    }
}

struct NoisyDrop {
    drops: Rc<Cell<u32>>,
}

impl Drop for NoisyDrop {
    fn drop(&mut self) {
        self.drops.set(self.drops.get() + 1);
    }
}

#[test]
fn jitter_buffer_teardown_frees_buffered_payloads() {
    let drops = Rc::new(Cell::new(0u32));
    {
        let mut buf: JitterBuffer<NoisyDrop> = JitterBuffer::new(JitterConfig {
            max_frames: 10,
            target_extra: 0,
        });
        for ts in [0i64, 20, 40] {
            let _ = buf.put(
                NoisyDrop { drops: drops.clone() },
                JitterFrameType::Voice,
                20,
                ts,
            );
        }
        assert_eq!(drops.get(), 0);
    }
    assert_eq!(drops.get(), 3);
}

#[test]
fn mixing_adds_and_saturates() {
    assert_eq!(mix_frames(&vec![vec![100, 200], vec![50, 50]]), vec![150, 250]);
    assert_eq!(
        mix_frames(&vec![vec![i16::MAX, -30000], vec![10, -10000]]),
        vec![i16::MAX, i16::MIN]
    );
    // Truncated to the shortest contribution.
    assert_eq!(mix_frames(&vec![vec![1, 2, 3], vec![10]]), vec![11]);
    assert_eq!(mix_frames(&vec![vec![7, 8]]), vec![7, 8]);
}

fn stereo_constant(pairs: usize, left: i16, right: i16) -> Vec<i16> {
    let mut out = Vec::with_capacity(2 * pairs);
    for _ in 0..pairs {
        out.push(left);
        out.push(right);
    }
    out
}

#[test]
fn receiver_mixes_two_speakers_and_downmixes_stereo() {
    let mut rtp = RtpReceiver::new();
    rtp.map_user_id(1, 101).unwrap();
    rtp.map_user_id(2, 102).unwrap();
    // 960 pairs of (100, 301) downmix to 201 by rounded-up averaging.
    rtp.accept_decoded(101, 0, &stereo_constant(960, 100, 301), 960, 0);
    rtp.accept_decoded(102, 0, &stereo_constant(960, 50, 50), 960, 0);
    // Frames fall due after the playout delay.
    match rtp.fetch_packet(10) {
        FetchPacketResult::CheckBackLater { time_ms } => assert_eq!(time_ms, 40),
        _ => panic!("nothing should be due yet"),
    }
    match rtp.fetch_packet(40) {
        FetchPacketResult::PacketAvailable { samples, duration_ms } => {
            assert_eq!(samples.len(), 960);
            assert_eq!(duration_ms, 20);
            assert!(samples.iter().all(|&s| s == 251));
        }
        _ => panic!("both frames were due"),
    }
    match rtp.fetch_packet(60) {
        FetchPacketResult::NoneQueued => {}
        _ => panic!("everything was drained"),
    }
}

#[test]
fn receiver_recomputes_wakeup_after_stale_cache() {
    let mut rtp = RtpReceiver::new();
    rtp.map_user_id(1, 42).unwrap();
    rtp.accept_decoded(42, 0, &stereo_constant(960, 10, 10), 960, 0);
    // Caches the first due time.
    match rtp.fetch_packet(0) {
        FetchPacketResult::CheckBackLater { time_ms } => assert_eq!(time_ms, 40),
        _ => panic!("the first frame is not due yet"),
    }
    // Fill the buffer until the earliest frames are displaced; the
    // cached due time now points before the real head.
    for k in 1..=102u32 {
        rtp.accept_decoded(42, k * 960, &stereo_constant(960, 10, 10), 960, 0);
    }
    // Nothing is ready at 50 ms, but playout must not stall: the next
    // real due time is reported.
    match rtp.fetch_packet(50) {
        FetchPacketResult::CheckBackLater { time_ms } => assert_eq!(time_ms, 100),
        _ => panic!("a later wake-up time was expected"),
    }
    match rtp.fetch_packet(100) {
        FetchPacketResult::PacketAvailable { samples, duration_ms } => {
            assert_eq!(samples.len(), 960);
            assert_eq!(duration_ms, 20);
        }
        _ => panic!("the head frame was due"),
    }
}

#[test]
fn receiver_ignores_unmapped_stream_sources() {
    let mut rtp = RtpReceiver::new();
    // A packet for a source nobody mapped asks for no decode work.
    let packet = VoicePacket::Rtp(ReceivedRtpPacket {
        sequence_number: 1,
        timestamp: 0,
        ssrc: 999,
        buffer: vec![0u8; 20],
        data_range: 12..20,
    });
    assert!(rtp.handle_packet(&packet).is_none());
    // Decoded audio for an unmapped source changes nothing.
    rtp.accept_decoded(999, 0, &stereo_constant(960, 10, 10), 960, 0);
    assert!(matches!(rtp.fetch_packet(100), FetchPacketResult::NoneQueued));
}

#[test]
fn receiver_maps_and_unmaps_speakers() {
    let mut rtp = RtpReceiver::new();
    rtp.map_user_id(7, 700).unwrap();
    // Mapping a known source again is a no-op.
    rtp.map_user_id(8, 700).unwrap();
    let packet = VoicePacket::Rtp(ReceivedRtpPacket {
        sequence_number: 1,
        timestamp: 0,
        ssrc: 700,
        buffer: vec![0u8; 20],
        data_range: 12..20,
    });
    assert!(rtp.handle_packet(&packet).is_some());
    rtp.unmap_user_id(7);
    assert!(rtp.handle_packet(&packet).is_none());
}

#[test]
fn session_requests_speaking_announcement_only_once() {
    let mut session = VoiceSession::new(42);
    session.on_transport_connected(VoiceDataChannel::new(1234));
    let key = vec![1u8; 32];
    let first = session
        .on_session_description(b"xsalsa20_poly1305", key.clone())
        .unwrap();
    assert!(first.send_speaking);
    assert_eq!(first.ssrc, 1234);
    let second = session
        .on_session_description(b"xsalsa20_poly1305_lite", key.clone())
        .unwrap();
    assert!(!second.send_speaking);
    let third = session
        .on_session_description(b"xsalsa20_poly1305", key)
        .unwrap();
    assert!(!third.send_speaking);
}

#[test]
fn session_rejects_descriptions_before_connecting() {
    let mut session = VoiceSession::new(42);
    assert!(session
        .on_session_description(b"xsalsa20_poly1305", vec![1u8; 32])
        .is_err());
    session.on_transport_connected(VoiceDataChannel::new(1));
    assert!(session
        .on_session_description(b"unknown_mode", vec![1u8; 32])
        .is_err());
}

#[test]
fn session_accumulates_connect_info_and_starts_gateway() {
    let mut session = VoiceSession::new(42);
    let first = session.handle_server_event(ServerEvent::VoiceStateUpdate {
        guild_id: Some(10),
        channel_id: Some(20),
        session_id: "sess".to_owned(),
    });
    assert!(first.is_none());
    let second = session.handle_server_event(ServerEvent::VoiceServerUpdate {
        endpoint: Some("voice.example.net".to_owned()),
        token: "tok".to_owned(),
    });
    let connect = second.expect("all five pieces were present");
    assert_eq!(connect.guild_id, 10);
    assert_eq!(connect.endpoint, "voice.example.net");
    assert_eq!(connect.session_id, "sess");
    assert_eq!(connect.token, "tok");
    assert!(matches!(session.state, VoiceSessionState::WaitingForReady));
}

#[test]
fn session_ready_selects_mode_and_write_needs_keys() {
    let mut session = VoiceSession::new(42);
    let _ = session.handle_server_event(ServerEvent::VoiceStateUpdate {
        guild_id: Some(1),
        channel_id: Some(2),
        session_id: "s".to_owned(),
    });
    let _ = session.handle_server_event(ServerEvent::VoiceServerUpdate {
        endpoint: Some("e".to_owned()),
        token: "t".to_owned(),
    });
    let modes = vec![
        b"xsalsa20_poly1305".to_vec(),
        b"xsalsa20_poly1305_suffix".to_vec(),
    ];
    let connect = session
        .on_ready("198.51.100.4".to_owned(), 50000, 77, &modes)
        .unwrap();
    assert_eq!(connect.mode, EncryptionMode::Suffix);
    assert_eq!(connect.ssrc, 77);
    // Writes fail until a session description installed keys.
    session.on_transport_connected(VoiceDataChannel::new(77));
    assert!(session.on_write(0, &vec![1, 2, 3]).is_err());
    let _ = session
        .on_session_description(b"xsalsa20_poly1305_suffix", vec![2u8; 32])
        .unwrap();
    assert!(session.on_write(0, &vec![1, 2, 3]).is_ok());
}

#[test]
fn session_closes_on_own_disconnect_only() {
    let mut session = VoiceSession::new(42);
    session.on_client_disconnect(7);
    assert!(!session.close_requested);
    session.on_client_disconnect(42);
    assert!(session.close_requested);
}

#[test]
fn join_channel_twice_fails_without_touching_voice_state() {
    let mut worker = CallWorker::new();
    let (action, response) = worker.handle_request(CallRequest::JoinChannel);
    assert!(matches!(action, CallAction::StartVoiceTask));
    assert!(response.is_ok());
    assert!(matches!(worker.voice, CallVoiceState::VoiceStarted));

    let (action, response) = worker.handle_request(CallRequest::JoinChannel);
    assert!(matches!(action, CallAction::Idle));
    assert!(response.is_err());
    assert!(matches!(worker.voice, CallVoiceState::VoiceStarted));
}

#[test]
fn hangup_is_idempotent_and_records_local_intent() {
    let mut worker = CallWorker::new();
    let _ = worker.handle_request(CallRequest::JoinChannel);
    let (action, response) = worker.handle_request(CallRequest::HangUp);
    assert!(matches!(action, CallAction::StopVoiceTask));
    assert!(response.is_ok());
    assert!(matches!(
        worker.voice,
        CallVoiceState::ShuttingDown { hung_up_locally: true }
    ));
    let (action, response) = worker.handle_request(CallRequest::HangUp);
    assert!(matches!(action, CallAction::Idle));
    assert!(response.is_ok());
}

#[test]
fn writes_forward_only_while_voice_runs() {
    let mut worker = CallWorker::new();
    let packet = chan_discord::call::OutgoingVoicePacket {
        opus_payload: vec![1, 2, 3],
        timestamp: 5,
    };
    let (_, response) = worker.handle_request(CallRequest::WriteFrame(packet));
    assert!(response.is_err());
    let _ = worker.handle_request(CallRequest::JoinChannel);
    let packet = chan_discord::call::OutgoingVoicePacket {
        opus_payload: vec![1, 2, 3],
        timestamp: 5,
    };
    match worker.handle_request(CallRequest::WriteFrame(packet)) {
        (CallAction::ForwardWrite(p), Ok(_)) => assert_eq!(p.opus_payload, vec![1, 2, 3]),
        _ => panic!("write should forward while the voice task runs"),
    }
}

#[test]
fn remote_close_suppresses_hangup_signalling() {
    let mut worker = CallWorker::new();
    let _ = worker.handle_request(CallRequest::JoinChannel);
    let action = worker.handle_call_event(VoiceEvent::Closed);
    assert!(matches!(action, CallEventAction::Idle));
    assert!(matches!(
        worker.voice,
        CallVoiceState::ShuttingDown { hung_up_locally: false }
    ));
}

#[test]
fn fully_connected_queues_the_answer_signal() {
    let mut worker = CallWorker::new();
    let _ = worker.handle_request(CallRequest::JoinChannel);
    assert!(matches!(
        worker.handle_call_event(VoiceEvent::FullyConnected),
        CallEventAction::QueueAnswer
    ));
}

#[test]
fn call_events_feed_the_mixer() {
    let mut worker = CallWorker::new();
    let _ = worker.handle_request(CallRequest::JoinChannel);
    let _ = worker.handle_call_event(VoiceEvent::UserJoined { ssrc: 500, user: 9 });
    let packet = VoicePacket::Rtp(ReceivedRtpPacket {
        sequence_number: 1,
        timestamp: 960,
        ssrc: 500,
        buffer: vec![0u8; 30],
        data_range: 12..30,
    });
    match worker.handle_call_event(VoiceEvent::Packet(packet)) {
        CallEventAction::Decode { job, .. } => {
            assert_eq!(job.ssrc, 500);
            assert_eq!(job.timestamp, 960);
            assert_eq!(job.payload_start, 12);
            assert_eq!(job.payload_end, 30);
        }
        _ => panic!("a mapped speaker's packet asks for decoding"),
    }
    let _ = worker.handle_call_event(VoiceEvent::UserLeft { user: 9 });
    let packet = VoicePacket::Rtp(ReceivedRtpPacket {
        sequence_number: 2,
        timestamp: 1920,
        ssrc: 500,
        buffer: vec![0u8; 30],
        data_range: 12..30,
    });
    assert!(matches!(
        worker.handle_call_event(VoiceEvent::Packet(packet)),
        CallEventAction::Idle
    ));
}

#[test]
fn outbound_timestamps_advance_by_one_frame() {
    let mut handle = chan_discord::call::CallHandle::new();
    let first = handle.next_timestamp();
    let second = handle.next_timestamp();
    assert_eq!(second, first.wrapping_add(960));
}

#[test]
fn shared_handles_read_the_same_value() {
    let handle = chan_discord::handle::Ao2::new(41u32);
    let other = handle.clone();
    assert_eq!(*handle.get(), 41);
    assert_eq!(*other.get(), 41);
}
