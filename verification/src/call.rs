//! The per-call worker: bridging telephony call control to the voice
//! session.
//!
//! Requests from the telephony side (join, hang up, write a frame,
//! swap the channel handle) are decoded into state transitions and
//! actions for the runtime; notifications from the voice task feed the
//! mixer and decide teardown.  The runtime performs the actions and
//! owns the queues; every decision is made here.

use vstd::prelude::*;

use crate::constants::NUM_SAMPLES;
use crate::receiver::{map_rel, unmap_rel, DecodeJob, RtpReceiver};
use crate::transport::VoicePacket;
use crate::wire::skip_ext_spec;
use crate::DiscordError;

verus! {

/// One encoded outbound audio frame with its media timestamp.
pub struct OutgoingVoicePacket {
    pub opus_payload: Vec<u8>,
    pub timestamp: u32,
}

/// A command decoded from the telephony side.
pub enum CallRequest {
    /// Join the configured voice room; fails if already joined.
    JoinChannel,
    /// Tear the voice task down; idempotent.
    HangUp,
    /// Forward one encoded audio frame to the voice task.
    WriteFrame(OutgoingVoicePacket),
    /// The foreign runtime swapped the backing channel object; the
    /// runtime must replace its held handle.
    FixUp,
}

/// The (empty) reply to a successful call request.
pub struct CallResponse {}

/// A notification from the voice task to the owning call.
pub enum VoiceEvent {
    Packet(VoicePacket),
    UserJoined { ssrc: u32, user: u64 },
    Speaking { user: u64, ssrc: u32 },
    UserLeft { user: u64 },
    FullyConnected,
    Closed,
}

/// Lifecycle of the voice task owned by one call.
#[derive(Copy, Clone, PartialEq, Eq, Structural)]
pub enum CallVoiceState {
    /// Not yet joining.
    Prepare,
    /// Joining requested; the voice task runs.
    VoiceStarted,
    /// Tearing down; the flag records whether the hangup was locally
    /// initiated, which decides whether the telephony channel itself
    /// is asked to hang up at the very end.
    ShuttingDown { hung_up_locally: bool },
}

/// What the runtime must do after a request was handled.
pub enum CallAction {
    /// Spawn the voice task.
    StartVoiceTask,
    /// Ask the voice task to leave and close, then await it.
    StopVoiceTask,
    /// Forward this frame to the voice task.
    ForwardWrite(OutgoingVoicePacket),
    /// Replace the held telephony-channel handle.
    SwapChannel,
    /// Nothing.
    Idle,
}

/// What the runtime must do after a voice-task notification.
pub enum CallEventAction {
    /// Decode this packet's payload with the speaker's decoder and
    /// hand the audio back to the mixer.
    Decode { job: DecodeJob, packet: VoicePacket },
    /// Queue the telephony "answer" control signal through the writer
    /// thread.
    QueueAnswer,
    /// Nothing.
    Idle,
}

/// How one join request moves the voice state: only a call not yet
/// joining is accepted; any other state rejects and stays put.
pub open spec fn join_transition(
    pre: CallVoiceState,
    post: CallVoiceState,
    accepted: bool,
) -> bool {
    if pre is Prepare {
        accepted && post is VoiceStarted
    } else {
        !accepted && post == pre
    }
}

/// Of two consecutive join requests, only the first can be accepted,
/// and the second leaves the established voice state alone.
pub proof fn lemma_join_only_once(
    s0: CallVoiceState,
    s1: CallVoiceState,
    s2: CallVoiceState,
    ok1: bool,
    ok2: bool,
)
    requires
        join_transition(s0, s1, ok1),
        join_transition(s1, s2, ok2),
    ensures
        ok1 ==> !ok2 && s2 == s1,
        s0 is Prepare ==> ok1 && !ok2 && s2 == s1,
{
}

/// Numeric value of a run of decimal digit characters.
pub open spec fn digits_val(s: Seq<u8>) -> int
    decreases s.len(),
{
    if s.len() == 0 {
        0
    } else {
        digits_val(s.drop_last()) * 10 + (s.last() - 48)
    }
}

/// Every byte is a decimal digit.
pub open spec fn is_digits(s: Seq<u8>) -> bool {
    forall|i: int| 0 <= i < s.len() ==> 48 <= #[trigger] s[i] <= 57
}

/// The 64-bit number a run of bytes spells in decimal, if it is a
/// nonempty run of digits whose value fits.
pub open spec fn parse_u64_spec(s: Seq<u8>) -> Option<u64> {
    if s.len() > 0 && is_digits(s) && digits_val(s) < 0x10000000000000000 {
        Some(digits_val(s) as u64)
    } else {
        None
    }
}

/// Position `k` holds the separator.
pub open spec fn slash_at(s: Seq<u8>, k: int) -> bool {
    0 <= k < s.len() && s[k] == 47
}

/// The destination a dial string names: `<guild>/<channel>`, both
/// decimal 64-bit numbers around exactly one separator.
pub open spec fn parse_dest_spec(s: Seq<u8>) -> Option<(u64, u64)> {
    if exists|k: int| slash_at(s, k) && (forall|j: int| #[trigger] slash_at(s, j) ==> j == k) {
        let k = choose|k: int|
            slash_at(s, k) && (forall|j: int| #[trigger] slash_at(s, j) ==> j == k);
        match (parse_u64_spec(s.subrange(0, k)), parse_u64_spec(s.subrange(k + 1, s.len() as int))) {
            (Some(g), Some(c)) => Some((g, c)),
            _ => None,
        }
    } else {
        None
    }
}

/// The value a run of digits spells is never negative.
proof fn lemma_digits_val_nonneg(s: Seq<u8>)
    requires
        is_digits(s),
    ensures
        digits_val(s) >= 0,
    decreases s.len(),
{
    if s.len() > 0 {
        assert(is_digits(s.drop_last())) by {
            assert(forall|i: int|
                0 <= i < s.len() - 1 ==> s.drop_last()[i] == #[trigger] s[i]);
        }
        lemma_digits_val_nonneg(s.drop_last());
    }
}

/// Reads a nonempty run of decimal digits as a 64-bit number.
fn parse_u64_digits(s: &[u8]) -> (r: Option<u64>)
    ensures
        r == parse_u64_spec(s@),
{
    let n = s.len();
    if n == 0 {
        return None;
    }
    let mut acc: u64 = 0;
    let mut i: usize = 0;
    while i < n
        invariant
            n == s@.len() > 0,
            0 <= i <= n,
            is_digits(s@.subrange(0, i as int)),
            acc == digits_val(s@.subrange(0, i as int)),
        decreases n - i,
    {
        let b = s[i];
        if b < 48 || b > 57 {
            proof {
                assert(!(48 <= s@[i as int] <= 57));
            }
            return None;
        }
        let d = (b - 48) as u64;
        if acc > (0xffffffffffffffffu64 - d) / 10 {
            proof {
                let pre = s@.subrange(0, i as int);
                let cur = s@.subrange(0, i + 1);
                assert(cur.drop_last() =~= pre);
                assert(cur.last() == s@[i as int]);
                assert(is_digits(cur));
                vstd::arithmetic::div_mod::lemma_fundamental_div_mod(
                    0xffffffffffffffff - d,
                    10,
                );
                assert(digits_val(cur) > 0xffffffffffffffff);
                if is_digits(s@) {
                    lemma_digits_val_grows(s@, i + 1);
                }
            }
            return None;
        }
        proof {
            vstd::arithmetic::div_mod::lemma_fundamental_div_mod(0xffffffffffffffff - d, 10);
            let pre = s@.subrange(0, i as int);
            let cur = s@.subrange(0, i + 1);
            assert(cur.drop_last() =~= pre);
            assert(cur.last() == s@[i as int]);
        }
        acc = acc * 10 + d;
        i += 1;
    }
    proof {
        assert(s@.subrange(0, n as int) =~= s@);
    }
    Some(acc)
}

/// Once a digit prefix spells a value past the 64-bit range, the whole
/// run does too.
proof fn lemma_digits_val_grows(s: Seq<u8>, k: int)
    requires
        0 < k <= s.len(),
        is_digits(s),
        digits_val(s.subrange(0, k)) > 0xffffffffffffffff,
    ensures
        digits_val(s) > 0xffffffffffffffff,
        !(digits_val(s) < 0x10000000000000000),
    decreases s.len() - k,
{
    if k == s.len() {
        assert(s.subrange(0, k) =~= s);
    } else {
        let cur = s.subrange(0, k);
        let next = s.subrange(0, k + 1);
        assert(next.drop_last() =~= cur);
        assert(next.last() == s[k]);
        lemma_digits_val_nonneg(cur);
        assert(digits_val(next) == digits_val(cur) * 10 + (s[k] - 48));
        assert(digits_val(cur) * 10 >= digits_val(cur)) by (nonlinear_arith)
            requires
                digits_val(cur) >= 0,
        ;
        lemma_digits_val_grows(s, k + 1);
    }
}

/// The first separator position in a dial string, if any.
fn find_first_slash(s: &[u8]) -> (r: Option<usize>)
    ensures
        match r {
            Some(k) => slash_at(s@, k as int) && (forall|j: int| 0 <= j < k ==> !slash_at(s@, j)),
            None => forall|j: int| 0 <= j < s@.len() ==> !slash_at(s@, j),
        },
{
    let n = s.len();
    let mut k: usize = 0;
    while k < n
        invariant
            n == s@.len(),
            0 <= k <= n,
            forall|j: int| 0 <= j < k ==> !slash_at(s@, j),
        decreases n - k,
    {
        if s[k] == 47 {
            return Some(k);
        }
        proof {
            assert(!slash_at(s@, k as int));
        }
        k += 1;
    }
    None
}

/// The verified core of the call facade: the wrapping media timestamp
/// stamped on outbound frames, advanced by one frame's samples per
/// write.
pub struct CallHandle {
    timestamp: u32,
}

impl CallHandle {
    /// The timestamp the next outbound frame will carry.
    pub closed spec fn timestamp_spec(&self) -> u32 {
        self.timestamp
    }

    /// A facade starting at an arbitrary timestamp.
    pub fn new() -> (r: Self) {
        CallHandle { timestamp: crate::crypto::random_u32() }
    }

    /// Takes the timestamp for one outbound frame and advances the
    /// counter by the fixed per-frame sample count, wrapping.
    pub fn next_timestamp(&mut self) -> (r: u32)
        ensures
            r == old(self).timestamp_spec(),
            final(self).timestamp_spec() == old(self).timestamp_spec().wrapping_add(NUM_SAMPLES),
    {
        let t = self.timestamp;
        self.timestamp = t.wrapping_add(NUM_SAMPLES);
        t
    }

    /// Reads a dial string of the form `<guild>/<channel>`: two
    /// decimal 64-bit numbers around exactly one separator, anything
    /// else rejected.
    pub fn parse_destination_addr(addr: &[u8]) -> (r: Option<(u64, u64)>)
        ensures
            r == parse_dest_spec(addr@),
    {
        let n = addr.len();
        let k = match find_first_slash(addr) {
            Some(k) => k,
            None => {
                proof {
                    if exists|w: int|
                        slash_at(addr@, w) && (forall|j: int| #[trigger] slash_at(addr@, j) ==> j
                            == w) {
                        let w = choose|w: int|
                            slash_at(addr@, w) && (forall|j: int| #[trigger] slash_at(addr@, j)
                                ==> j == w);
                        assert(false);
                    }
                }
                return None;
            },
        };
        let mut j: usize = k + 1;
        while j < n
            invariant
                n == addr@.len(),
                k < j <= n,
                slash_at(addr@, k as int),
                forall|m: int| k < m < j ==> !slash_at(addr@, m),
                forall|m: int| 0 <= m < k ==> !slash_at(addr@, m),
            decreases n - j,
        {
            if addr[j] == 47 {
                proof {
                    assert(slash_at(addr@, j as int));
                    if exists|w: int|
                        slash_at(addr@, w) && (forall|m: int| #[trigger] slash_at(addr@, m) ==> m
                            == w) {
                        let w = choose|w: int|
                            slash_at(addr@, w) && (forall|m: int| #[trigger] slash_at(addr@, m)
                                ==> m == w);
                        assert(false);
                    }
                }
                return None;
            }
            proof {
                assert(!slash_at(addr@, j as int));
            }
            j += 1;
        }
        proof {
            let kk = k as int;
            assert(slash_at(addr@, kk) && (forall|m: int| #[trigger] slash_at(addr@, m) ==> m
                == kk));
            let w = choose|w: int|
                slash_at(addr@, w) && (forall|m: int| #[trigger] slash_at(addr@, m) ==> m == w);
            assert(w == kk);
        }
        let guild_part = crate::wire::copy_range(addr, 0, k);
        let channel_part = crate::wire::copy_range(addr, k + 1, n);
        let guild = match parse_u64_digits(guild_part.as_slice()) {
            Some(g) => g,
            None => {
                return None;
            },
        };
        let channel = match parse_u64_digits(channel_part.as_slice()) {
            Some(c) => c,
            None => {
                return None;
            },
        };
        Some((guild, channel))
    }
}

/// The call worker's decision state: the voice task lifecycle and the
/// mixer of inbound audio.
pub struct CallWorker {
    pub voice: CallVoiceState,
    pub rtp: RtpReceiver,
}

impl CallWorker {
    /// The mixer is sound.
    pub open spec fn wf(&self) -> bool {
        self.rtp.wf()
    }

    /// A worker that has not started joining, with an empty mixer.
    pub fn new() -> (r: Self)
        ensures
            r.wf(),
            r.voice is Prepare,
            r.rtp.participants_seq().len() == 0,
    {
        CallWorker { voice: CallVoiceState::Prepare, rtp: RtpReceiver::new() }
    }

    /// Handles one request from the telephony side.
    ///
    /// Joining is accepted exactly once; hanging up is idempotent and
    /// records that the hangup was local; writes are forwarded only
    /// while the voice task runs; a fixup swaps the runtime's channel
    /// handle and touches no voice state.
    pub fn handle_request(&mut self, request: CallRequest) -> (r: (
        CallAction,
        Result<CallResponse, DiscordError>,
    ))
        requires
            old(self).wf(),
        ensures
            final(self).wf(),
            final(self).rtp == old(self).rtp,
            match request {
                CallRequest::JoinChannel => {
                    &&& join_transition(old(self).voice, final(self).voice, r.1 is Ok)
                    &&& (r.1 is Ok <==> r.0 is StartVoiceTask)
                    &&& (r.1 is Err ==> r.0 is Idle)
                },
                CallRequest::HangUp => {
                    &&& final(self).voice == (CallVoiceState::ShuttingDown {
                        hung_up_locally: true,
                    })
                    &&& r.1 is Ok
                    &&& r.0 == (if old(self).voice is VoiceStarted {
                        CallAction::StopVoiceTask
                    } else {
                        CallAction::Idle
                    })
                },
                CallRequest::WriteFrame(_) => {
                    &&& final(self).voice == old(self).voice
                    &&& (r.1 is Ok <==> old(self).voice is VoiceStarted)
                    &&& (old(self).voice is VoiceStarted ==> (r.0 matches
                    CallAction::ForwardWrite(p) && (request matches CallRequest::WriteFrame(q)
                        && p == q)))
                    &&& (!(old(self).voice is VoiceStarted) ==> r.0 is Idle)
                },
                CallRequest::FixUp => {
                    &&& final(self).voice == old(self).voice
                    &&& r.0 is SwapChannel
                    &&& r.1 is Ok
                },
            },
    {
        match request {
            CallRequest::JoinChannel => {
                if matches!(self.voice, CallVoiceState::Prepare) {
                    self.voice = CallVoiceState::VoiceStarted;
                    (CallAction::StartVoiceTask, Ok(CallResponse {  }))
                } else {
                    (
                        CallAction::Idle,
                        Err(
                            DiscordError::InternalError {
                                cause: "tried to call same channel twice".to_owned(),
                            },
                        ),
                    )
                }
            },
            CallRequest::HangUp => {
                let was_started = matches!(self.voice, CallVoiceState::VoiceStarted);
                self.voice = CallVoiceState::ShuttingDown { hung_up_locally: true };
                if was_started {
                    (CallAction::StopVoiceTask, Ok(CallResponse {  }))
                } else {
                    (CallAction::Idle, Ok(CallResponse {  }))
                }
            },
            CallRequest::WriteFrame(packet) => {
                if matches!(self.voice, CallVoiceState::VoiceStarted) {
                    (CallAction::ForwardWrite(packet), Ok(CallResponse {  }))
                } else {
                    (
                        CallAction::Idle,
                        Err(
                            DiscordError::InternalError {
                                cause: "call not connected yet".to_owned(),
                            },
                        ),
                    )
                }
            },
            CallRequest::FixUp => (CallAction::SwapChannel, Ok(CallResponse {  })),
        }
    }

    /// Handles one notification from the voice task.
    ///
    /// Media packets become decode jobs for their mapped speaker.
    /// Presence events keep the mixer's speaker map: a joining or
    /// speaking user has their stream source mapped, a leaving user is
    /// unmapped.  Full connection queues the telephony answer signal;
    /// a close from the far side shuts the call down without
    /// re-signalling the hangup.
    pub fn handle_call_event(&mut self, event: VoiceEvent) -> (r: CallEventAction)
        requires
            old(self).wf(),
            event matches VoiceEvent::Packet(p) ==> (p matches VoicePacket::Rtp(rp)
                ==> rp.data_range.start <= rp.data_range.end <= rp.buffer@.len()),
        ensures
            final(self).wf(),
            match event {
                VoiceEvent::FullyConnected => r is QueueAnswer && *final(self) == *old(self),
                VoiceEvent::Closed => final(self).voice == (CallVoiceState::ShuttingDown {
                    hung_up_locally: false,
                }) && final(self).rtp == old(self).rtp && r is Idle,
                VoiceEvent::Packet(p) => {
                    &&& final(self).voice == old(self).voice
                    &&& final(self).rtp == old(self).rtp
                    &&& match p {
                        VoicePacket::Rtcp(_) => r is Idle,
                        VoicePacket::Rtp(rp) => match skip_ext_spec(
                            rp.buffer@,
                            rp.data_range.start as int,
                            rp.data_range.end as int,
                        ) {
                            None => r is Idle,
                            Some(w) => if old(self).rtp.has_ssrc(rp.ssrc) {
                                r matches CallEventAction::Decode { job, packet } && job.ssrc
                                    == rp.ssrc && job.timestamp == rp.timestamp
                                    && job.payload_start == w.0 && job.payload_end == w.1
                                    && packet == p
                            } else {
                                r is Idle
                            },
                        },
                    }
                },
                VoiceEvent::UserJoined { ssrc, user } => {
                    &&& final(self).voice == old(self).voice
                    &&& r is Idle
                    &&& map_rel(old(self).rtp, final(self).rtp, user, ssrc)
                },
                VoiceEvent::Speaking { user, ssrc } => {
                    &&& final(self).voice == old(self).voice
                    &&& r is Idle
                    &&& map_rel(old(self).rtp, final(self).rtp, user, ssrc)
                },
                VoiceEvent::UserLeft { user } => {
                    &&& final(self).voice == old(self).voice
                    &&& r is Idle
                    &&& unmap_rel(old(self).rtp, final(self).rtp, user)
                },
            },
    {
        match event {
            VoiceEvent::Packet(packet) => {
                match self.rtp.handle_packet(&packet) {
                    Some(job) => CallEventAction::Decode { job, packet },
                    None => CallEventAction::Idle,
                }
            },
            VoiceEvent::UserJoined { ssrc, user } => {
                let _ = self.rtp.map_user_id(user, ssrc);
                CallEventAction::Idle
            },
            VoiceEvent::Speaking { user, ssrc } => {
                let _ = self.rtp.map_user_id(user, ssrc);
                CallEventAction::Idle
            },
            VoiceEvent::UserLeft { user } => {
                self.rtp.unmap_user_id(user);
                CallEventAction::Idle
            },
            VoiceEvent::FullyConnected => CallEventAction::QueueAnswer,
            VoiceEvent::Closed => {
                self.voice = CallVoiceState::ShuttingDown { hung_up_locally: false };
                CallEventAction::Idle
            },
        }
    }
}

} // verus!
