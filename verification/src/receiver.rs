//! Mixing of inbound speaker streams.
//!
//! Each mapped speaker owns a jitter buffer of mono audio frames.  The
//! receiver turns decrypted media packets into per-speaker decode jobs,
//! files decoded audio into the right buffer, and, when frames fall
//! due, additively mixes the ready frames of all speakers into one
//! outbound frame, truncated to the shortest contribution.

use vstd::prelude::*;

use crate::jitter::{
    lemma_stable_insert_head, stable_insert_post, JitterBuffer, JitterBufferErr, JitterConfig,
    JitterFrame, JitterFrameType, JITTER_MAX_DURATION, JITTER_MAX_TS,
};
use crate::transport::VoicePacket;
use crate::wire::{skip_ext_spec, skip_over_extensions};
use crate::DiscordError;

verus! {

/// Frames a buffer holds before the oldest is displaced.
pub const JB_MAX_FRAMES: usize = 100;

/// Playout delay applied to every buffered frame, in milliseconds.
pub const JB_TARGET_EXTRA: i64 = 40;

/// Frame duration assumed for a speaker before any audio was decoded,
/// in milliseconds.
pub const ASSUMED_VOICE_LENGTH: i64 = 20;

/// Saturating addition of two samples into the 16-bit range.
pub open spec fn sat_add(a: int, b: int) -> int {
    if a + b > 32767 {
        32767
    } else if a + b < -32768 {
        -32768
    } else {
        a + b
    }
}

/// The rounded-up average of two samples.
pub open spec fn avg_ceil(a: int, b: int) -> int {
    (a + b + 1) / 2
}

/// Sample `i` of the mix: the frames' samples at `i` folded with
/// saturating addition, in order.
pub open spec fn mixed_sample(frames: Seq<Seq<i16>>, i: int) -> int
    decreases frames.len(),
{
    if frames.len() == 0 {
        0
    } else {
        sat_add(mixed_sample(frames.drop_last(), i), frames.last()[i] as int)
    }
}

/// Length of the shortest frame.
pub open spec fn min_frame_len(frames: Seq<Seq<i16>>) -> int
    decreases frames.len(),
{
    if frames.len() == 0 {
        0
    } else if frames.len() == 1 {
        frames[0].len() as int
    } else {
        let rest = min_frame_len(frames.drop_last());
        if frames.last().len() < rest {
            frames.last().len() as int
        } else {
            rest
        }
    }
}

/// Saturating addition of two samples.
pub fn saturating_add_i16(a: i16, b: i16) -> (r: i16)
    ensures
        r == sat_add(a as int, b as int),
{
    let s: i32 = a as i32 + b as i32;
    if s > 32767 {
        32767
    } else if s < -32768 {
        -32768
    } else {
        s as i16
    }
}

/// The rounded-up average of two samples.
pub fn average_ceil_i16(a: i16, b: i16) -> (r: i16)
    ensures
        r == avg_ceil(a as int, b as int),
{
    let ua: u32 = (a as i32 + 32768) as u32;
    let ub: u32 = (b as i32 + 32768) as u32;
    let m: u32 = (ua + ub + 1) / 2;
    proof {
        vstd::arithmetic::div_mod::lemma_div_multiples_vanish(
            32768,
            2,
        );
        assert((ua + ub + 1) == (a + b + 1) + 2 * 32768);
        vstd::arithmetic::div_mod::lemma_hoist_over_denominator(
            a as int + b as int + 1,
            32768,
            2,
        );
    }
    (m as i32 - 32768) as i16
}

/// Downmixes interleaved stereo to mono by rounded-up averaging of
/// each sample pair.
pub fn downmix_stereo(stereo: &Vec<i16>, pairs: usize) -> (r: Vec<i16>)
    requires
        2 * pairs <= stereo@.len(),
    ensures
        r@.len() == pairs,
        forall|i: int|
            0 <= i < pairs ==> #[trigger] r@[i] == avg_ceil(
                stereo@[2 * i] as int,
                stereo@[2 * i + 1] as int,
            ),
{
    let n = stereo.len();
    let mut out: Vec<i16> = Vec::new();
    let mut i: usize = 0;
    while i < pairs
        invariant
            0 <= i <= pairs,
            n == stereo@.len(),
            2 * pairs <= stereo@.len(),
            out@.len() == i,
            forall|j: int|
                0 <= j < i ==> #[trigger] out@[j] == avg_ceil(
                    stereo@[2 * j] as int,
                    stereo@[2 * j + 1] as int,
                ),
        decreases pairs - i,
    {
        let left = stereo[2 * i];
        let right = stereo[2 * i + 1];
        out.push(average_ceil_i16(left, right));
        i += 1;
    }
    out
}

/// Additively mixes the given frames, sample by sample with saturating
/// addition, truncated to the shortest frame.
pub fn mix_frames(frames: &Vec<Vec<i16>>) -> (r: Vec<i16>)
    requires
        frames@.len() > 0,
    ensures
        r@.len() == min_frame_len(frames.deep_view()),
        forall|i: int|
            0 <= i < r@.len() ==> #[trigger] r@[i] == mixed_sample(frames.deep_view(), i),
{
    let ghost vs = frames.deep_view();
    let mut len: usize = frames[0].len();
    let mut k: usize = 1;
    while k < frames.len()
        invariant
            1 <= k <= frames@.len(),
            vs == frames.deep_view(),
            vs.len() == frames@.len(),
            len == min_frame_len(vs.subrange(0, k as int)),
        decreases frames@.len() - k,
    {
        proof {
            assert(vs.subrange(0, k + 1).drop_last() =~= vs.subrange(0, k as int));
            assert(vs.subrange(0, k + 1).last() == vs[k as int]);
            assert(vs[k as int] == frames@[k as int]@);
        }
        let flen = frames[k].len();
        if flen < len {
            len = flen;
        }
        k += 1;
    }
    proof {
        assert(vs.subrange(0, 1).drop_last() =~= Seq::<Seq<i16>>::empty());
        assert(vs.subrange(0, frames@.len() as int) =~= vs);
    }
    let mut mixed: Vec<i16> = Vec::new();
    let mut i: usize = 0;
    while i < len
        invariant
            0 <= i <= len,
            vs == frames.deep_view(),
            vs.len() == frames@.len() >= 1,
            len == min_frame_len(vs),
            mixed@.len() == i,
            forall|j: int| 0 <= j < i ==> #[trigger] mixed@[j] == mixed_sample(vs, j),
        decreases len - i,
    {
        let mut sample: i16 = 0;
        let mut k2: usize = 0;
        proof {
            lemma_min_frame_len_le(vs, vs.len() as int);
        }
        while k2 < frames.len()
            invariant
                0 <= k2 <= frames@.len(),
                vs == frames.deep_view(),
                vs.len() == frames@.len(),
                0 <= i < min_frame_len(vs),
                sample == mixed_sample(vs.subrange(0, k2 as int), i as int),
            decreases frames@.len() - k2,
        {
            proof {
                assert(vs.subrange(0, k2 + 1).drop_last() =~= vs.subrange(0, k2 as int));
                assert(vs.subrange(0, k2 + 1).last() == vs[k2 as int]);
                assert(vs[k2 as int] == frames@[k2 as int]@);
                lemma_min_frame_len_le(vs, k2 + 1);
            }
            let row = &frames[k2];
            sample = saturating_add_i16(sample, row[i]);
            k2 += 1;
        }
        proof {
            assert(vs.subrange(0, vs.len() as int) =~= vs);
        }
        mixed.push(sample);
        i += 1;
    }
    mixed
}

/// One mapped speaker: identity, lazily created jitter buffer, the
/// timestamp origin of the relative-time mapping, and the duration of
/// the last decoded frame, used as the expected frame length.
pub struct OtherParticipant {
    pub user_id: u64,
    pub ssrc: u32,
    pub jitterbuf: Option<JitterBuffer<Vec<i16>>>,
    pub initial_timestamp: Option<u32>,
    pub last_voice_length: i64,
}

impl OtherParticipant {
    /// The buffer, when present, is sound and sized by the receiver's
    /// configuration; the expected frame length is in range.
    pub open spec fn wf(&self) -> bool {
        &&& 0 <= self.last_voice_length <= JITTER_MAX_DURATION
        &&& match self.jitterbuf {
            Some(b) => b.wf() && b.target_spec() == JB_TARGET_EXTRA && b.max_frames_spec()
                == JB_MAX_FRAMES,
            None => true,
        }
    }
}

/// Cached earliest due time across all speakers' buffers.
#[derive(Copy, Clone)]
pub struct KnownNextFrameTime {
    pub due: i64,
    pub ssrc: u32,
}

/// What `fetch_packet` yields.
pub enum FetchPacketResult {
    /// A mixed outbound frame and its duration in milliseconds.
    PacketAvailable { samples: Vec<i16>, duration_ms: i64 },
    /// Nothing is due yet; ask again at this time.
    CheckBackLater { time_ms: i64 },
    /// No speaker has audio queued.
    NoneQueued,
}

/// The decoding work one media packet asks for: which speaker's
/// decoder to use and where the compressed payload lies in the
/// packet's buffer.
pub struct DecodeJob {
    pub ssrc: u32,
    pub timestamp: u32,
    pub payload_start: usize,
    pub payload_end: usize,
}

/// Per-speaker jitter buffers and the cached next due time.
pub struct RtpReceiver {
    participants: Vec<OtherParticipant>,
    known_next: Option<KnownNextFrameTime>,
}

/// The duration in milliseconds of `pairs` mono samples.
pub open spec fn dur_ms_spec(pairs: int) -> int {
    1000 * pairs / 48000
}

/// The buffer-relative delivery time of a packet: the wrapping
/// distance from the speaker's origin timestamp, in samples, converted
/// to milliseconds.
pub open spec fn rel_ts_spec(timestamp: u32, base: u32) -> int {
    1000 * (vstd::wrapping::u32_specs::wrapping_sub(timestamp, base) as int) / 48000
}

/// The mono frame decoded audio turns into.
pub open spec fn downmix_spec(stereo: Seq<i16>, pairs: int) -> Seq<i16> {
    Seq::new(pairs as nat, |i: int| avg_ceil(stereo[2 * i] as int, stereo[2 * i + 1] as int) as i16)
}

/// Number of leading frames that fell behind the playout cursor.
pub open spec fn stale_prefix<T>(s: Seq<JitterFrame<T>>, cursor: int) -> int
    decreases s.len(),
{
    if s.len() == 0 {
        0
    } else if s[0].ts >= cursor {
        0
    } else {
        1 + stale_prefix(s.drop_first(), cursor)
    }
}

/// How one speaker's state changes when a decoded frame is filed:
/// the duration is remembered as the expected frame length, the
/// timestamp origin is pinned on first use, and the mono frame takes
/// its place in the buffer by relative timestamp, displacing frames
/// per the buffer's discipline.
pub open spec fn accept_rel(
    oldp: OtherParticipant,
    newp: OtherParticipant,
    timestamp: u32,
    mono: Seq<i16>,
    dur: int,
) -> bool {
    let base = match oldp.initial_timestamp {
        Some(b) => b,
        None => timestamp,
    };
    let bframes = match oldp.jitterbuf {
        Some(ob) => ob.frames_seq(),
        None => Seq::empty(),
    };
    let bcursor = match oldp.jitterbuf {
        Some(ob) => ob.cursor_spec() as int,
        None => 0,
    };
    &&& newp.user_id == oldp.user_id
    &&& newp.ssrc == oldp.ssrc
    &&& newp.last_voice_length == dur
    &&& newp.initial_timestamp == Some(base)
    &&& newp.jitterbuf matches Some(nb) && nb.cursor_spec() as int == bcursor
        && nb.target_spec() == JB_TARGET_EXTRA && nb.max_frames_spec() == JB_MAX_FRAMES
        && nb.expected_spec() == (match oldp.jitterbuf {
        Some(ob) => ob.expected_spec(),
        None => None::<i64>,
    }) && exists|mv: Vec<i16>|
        {
            let f = JitterFrame {
                data: mv,
                duration: dur as i64,
                ts: rel_ts_spec(timestamp, base) as i64,
                frame_type: JitterFrameType::Voice,
            };
            &&& #[trigger] mv@ == mono
            &&& (f.ts < bcursor ==> nb.frames_seq() == bframes)
            &&& (f.ts >= bcursor && bframes.len() == JB_MAX_FRAMES ==> stable_insert_post(
                bframes.drop_first(),
                f,
                nb.frames_seq(),
            ))
            &&& (f.ts >= bcursor && bframes.len() < JB_MAX_FRAMES ==> stable_insert_post(
                bframes,
                f,
                nb.frames_seq(),
            ))
        }
}

/// How one speaker's state changes when the mixer asks it for a ready
/// frame at time `now`: the stale leading frames are discarded, and
/// the next frame is delivered exactly when its playout time has come.
pub open spec fn collect_rel(
    oldp: OtherParticipant,
    newp: OtherParticipant,
    o: Option<JitterFrame<Vec<i16>>>,
    now: int,
) -> bool {
    &&& newp.user_id == oldp.user_id
    &&& newp.ssrc == oldp.ssrc
    &&& newp.initial_timestamp == oldp.initial_timestamp
    &&& newp.last_voice_length == oldp.last_voice_length
    &&& match oldp.jitterbuf {
        None => newp.jitterbuf is None && o is None,
        Some(ob) => {
            let s = ob.frames_seq();
            let k = stale_prefix(s, ob.cursor_spec() as int);
            &&& newp.jitterbuf matches Some(nb) && nb.target_spec() == ob.target_spec()
                && nb.max_frames_spec() == ob.max_frames_spec() && match o {
                Some(f) => {
                    &&& k < s.len()
                    &&& now >= s[k].ts + ob.target_spec()
                    &&& f == s[k]
                    &&& nb.frames_seq() == s.skip(k + 1)
                    &&& nb.cursor_spec() == f.ts + f.duration
                },
                None => {
                    &&& nb.frames_seq() == s.skip(k)
                    &&& nb.cursor_spec() == ob.cursor_spec()
                    &&& (k == s.len() || now < s[k].ts + ob.target_spec())
                },
            }
        },
    }
}

/// The payloads of the delivered frames, in speaker order.
pub open spec fn collected_of(outcomes: Seq<Option<JitterFrame<Vec<i16>>>>) -> Seq<Seq<i16>>
    decreases outcomes.len(),
{
    if outcomes.len() == 0 {
        Seq::empty()
    } else {
        collected_of(outcomes.drop_last()) + match outcomes.last() {
            Some(f) => seq![f.data@],
            None => Seq::<Seq<i16>>::empty(),
        }
    }
}

/// Discards stale frames at the head of `buf` and takes the next frame
/// if its playout time has come.
fn next_ready_frame(buf: &mut JitterBuffer<Vec<i16>>, now: i64, expected: i64) -> (r: Option<
    JitterFrame<Vec<i16>>,
>)
    requires
        old(buf).wf(),
        0 <= now <= JITTER_MAX_TS,
        0 <= expected <= JITTER_MAX_DURATION,
    ensures
        final(buf).wf(),
        final(buf).target_spec() == old(buf).target_spec(),
        final(buf).max_frames_spec() == old(buf).max_frames_spec(),
        ({
            let s = old(buf).frames_seq();
            let c = old(buf).cursor_spec() as int;
            let k = stale_prefix(s, c);
            match r {
                Some(f) => {
                    &&& k < s.len()
                    &&& now >= s[k].ts + old(buf).target_spec()
                    &&& f == s[k]
                    &&& final(buf).frames_seq() == s.skip(k + 1)
                    &&& final(buf).cursor_spec() == f.ts + f.duration
                },
                None => {
                    &&& final(buf).frames_seq() == s.skip(k)
                    &&& final(buf).cursor_spec() == old(buf).cursor_spec()
                    &&& (k == s.len() || now < s[k].ts + old(buf).target_spec())
                },
            }
        }),
{
    let ghost s0 = buf.frames_seq();
    let ghost c = buf.cursor_spec() as int;
    let ghost mut d: int = 0;
    loop
        invariant
            buf.wf(),
            0 <= now <= JITTER_MAX_TS,
            0 <= expected <= JITTER_MAX_DURATION,
            buf.target_spec() == old(buf).target_spec(),
            buf.max_frames_spec() == old(buf).max_frames_spec(),
            buf.cursor_spec() == old(buf).cursor_spec(),
            s0 == old(buf).frames_seq(),
            c == old(buf).cursor_spec() as int,
            0 <= d <= s0.len(),
            buf.frames_seq() =~= s0.skip(d),
            stale_prefix(s0, c) == d + stale_prefix(buf.frames_seq(), c),
        decreases s0.len() - d,
    {
        let ghost pre = buf.frames_seq();
        match buf.get(now, expected) {
            Ok(f) => {
                proof {
                    assert(pre[0].ts >= c);
                    assert(stale_prefix(pre, c) == 0);
                    assert(buf.frames_seq() =~= s0.skip(d + 1));
                    assert(f == s0[d]);
                }
                return Some(f);
            },
            Err(JitterBufferErr::Drop { frame }) => {
                proof {
                    assert(pre[0].ts < c);
                    assert(stale_prefix(pre, c) == 1 + stale_prefix(pre.drop_first(), c));
                    assert(buf.frames_seq() =~= pre.drop_first());
                    assert(buf.frames_seq() =~= s0.skip(d + 1));
                    d = d + 1;
                }
            },
            Err(_) => {
                proof {
                    if buf.frames_seq().len() > 0 {
                        assert(stale_prefix(buf.frames_seq(), c) == 0);
                    }
                }
                return None;
            },
        }
    }
}

/// `samples` is the saturating mix of `frames`, truncated to the
/// shortest frame.
pub open spec fn is_mix_of(samples: Seq<i16>, frames: Seq<Seq<i16>>) -> bool {
    &&& samples.len() == min_frame_len(frames)
    &&& forall|i: int| 0 <= i < samples.len() ==> #[trigger] samples[i] == mixed_sample(frames, i)
}

/// The due time of a speaker's earliest buffered frame.
pub open spec fn due_of(p: OtherParticipant) -> Option<int> {
    match p.jitterbuf {
        Some(b) => if b.frames_seq().len() > 0 {
            Some(b.frames_seq()[0].ts + b.target_spec())
        } else {
            None
        },
        None => None,
    }
}

/// The earliest due time across all speakers, keeping the earlier
/// speaker on ties.
pub open spec fn min_due_spec(ps: Seq<OtherParticipant>) -> Option<int>
    decreases ps.len(),
{
    if ps.len() == 0 {
        None
    } else {
        let rest = min_due_spec(ps.drop_last());
        match rest {
            None => due_of(ps.last()),
            Some(m) => match due_of(ps.last()) {
                None => Some(m),
                Some(d) => if d < m {
                    Some(d)
                } else {
                    Some(m)
                },
            },
        }
    }
}

/// One collection pass at time `now`: every speaker underwent
/// `collect_rel` with the stated outcome.
pub open spec fn collection_pass(
    pre: Seq<OtherParticipant>,
    post: Seq<OtherParticipant>,
    outcomes: Seq<Option<JitterFrame<Vec<i16>>>>,
    now: int,
) -> bool {
    &&& outcomes.len() == pre.len()
    &&& post.len() == pre.len()
    &&& forall|j: int|
        0 <= j < outcomes.len() ==> collect_rel(pre[j], post[j], #[trigger] outcomes[j], now)
}

/// A pass that delivered nothing had only empty outcomes.
proof fn lemma_collected_of_empty(outcomes: Seq<Option<JitterFrame<Vec<i16>>>>)
    requires
        collected_of(outcomes).len() == 0,
    ensures
        forall|j: int| 0 <= j < outcomes.len() ==> (#[trigger] outcomes[j]) is None,
    decreases outcomes.len(),
{
    if outcomes.len() > 0 {
        assert(collected_of(outcomes.drop_last()).len() == 0);
        assert(outcomes.last() is None);
        lemma_collected_of_empty(outcomes.drop_last());
        assert forall|j: int| 0 <= j < outcomes.len() implies (#[trigger] outcomes[j]) is None by {
            if j < outcomes.len() - 1 {
                assert(outcomes.drop_last()[j] == outcomes[j]);
            } else {
                assert(outcomes[j] == outcomes.last());
            }
        }
    }
}

/// The earliest due time across the speakers is some speaker's due
/// time.
proof fn lemma_min_due_member(ps: Seq<OtherParticipant>)
    ensures
        min_due_spec(ps) matches Some(t) ==> exists|i: int|
            0 <= i < ps.len() && due_of(#[trigger] ps[i]) == Some(t),
    decreases ps.len(),
{
    if ps.len() > 0 {
        lemma_min_due_member(ps.drop_last());
        if min_due_spec(ps) is Some {
            let t = min_due_spec(ps).unwrap();
            if due_of(ps.last()) == Some(t) {
                assert(ps.last() == ps[ps.len() - 1]);
                assert(due_of(ps[ps.len() - 1]) == Some(t));
            } else {
                let w = choose|i: int|
                    0 <= i < ps.drop_last().len() && due_of(#[trigger] ps.drop_last()[i]) == Some(
                        t,
                    );
                assert(ps.drop_last()[w] == ps[w]);
                assert(due_of(ps[w]) == Some(t));
            }
        }
    }
}

/// No more frames lie behind the cursor than the buffer holds.
proof fn lemma_stale_prefix_le<T>(s: Seq<JitterFrame<T>>, c: int)
    ensures
        0 <= stale_prefix(s, c) <= s.len(),
    decreases s.len(),
{
    if s.len() > 0 && s[0].ts < c {
        lemma_stale_prefix_le(s.drop_first(), c);
    }
}

/// Whether filing a frame at relative time `rel_ts` changes the
/// speaker's earliest due time: the frame is accepted ahead of every
/// buffered one, into a buffer with room.
pub open spec fn reschedules(oldp: OtherParticipant, rel_ts: int) -> bool {
    let bframes = match oldp.jitterbuf {
        Some(ob) => ob.frames_seq(),
        None => Seq::empty(),
    };
    let bcursor = match oldp.jitterbuf {
        Some(ob) => ob.cursor_spec() as int,
        None => 0,
    };
    &&& rel_ts >= bcursor
    &&& bframes.len() < JB_MAX_FRAMES
    &&& (bframes.len() == 0 || bframes[0].ts > rel_ts)
}

/// How mapping a speaker changes the receiver: a stream source id
/// already mapped leaves everything untouched; otherwise the speaker
/// is appended with no buffer, no timestamp origin and the assumed
/// frame length, and the cached due time is kept.
pub open spec fn map_rel(pre: RtpReceiver, post: RtpReceiver, user: u64, ssrc: u32) -> bool {
    if pre.has_ssrc(ssrc) {
        post == pre
    } else {
        &&& post.participants_seq() == pre.participants_seq().push(
            OtherParticipant {
                user_id: user,
                ssrc,
                jitterbuf: None,
                initial_timestamp: None,
                last_voice_length: ASSUMED_VOICE_LENGTH,
            },
        )
        &&& post.known_next_spec() == pre.known_next_spec()
    }
}

/// How unmapping a user changes the receiver: the speaker most
/// recently mapped for the user is removed and a cached due time
/// pointing at their stream is forgotten; a user with no speaker
/// leaves everything untouched.
pub open spec fn unmap_rel(pre: RtpReceiver, post: RtpReceiver, user: u64) -> bool {
    if exists|i: int|
        0 <= i < pre.participants_seq().len() && (#[trigger] pre.participants_seq()[i]).user_id
            == user {
        exists|i: int|
            {
                &&& 0 <= i < pre.participants_seq().len()
                &&& (#[trigger] pre.participants_seq()[i]).user_id == user
                &&& forall|j: int|
                    i < j < pre.participants_seq().len()
                        ==> (#[trigger] pre.participants_seq()[j]).user_id != user
                &&& post.participants_seq() == pre.participants_seq().remove(i)
                &&& post.known_next_spec() == (match pre.known_next_spec() {
                    Some(k) => if k.ssrc == pre.participants_seq()[i].ssrc {
                        None
                    } else {
                        Some(k)
                    },
                    None => None,
                })
            }
    } else {
        post == pre
    }
}

impl RtpReceiver {
    /// The mapped speakers, in mapping order.
    pub closed spec fn participants_seq(&self) -> Seq<OtherParticipant> {
        self.participants@
    }

    /// The cached next due time, if any.
    pub closed spec fn known_next_spec(&self) -> Option<KnownNextFrameTime> {
        self.known_next
    }

    /// Whether a stream source id is mapped.
    pub open spec fn has_ssrc(&self, ssrc: u32) -> bool {
        exists|i: int|
            0 <= i < self.participants_seq().len() && (#[trigger] self.participants_seq()[i]).ssrc
                == ssrc
    }

    /// The due time the next fetch will act on: the cached value, or
    /// the earliest across all buffers.
    pub open spec fn pending_due_spec(&self) -> Option<int> {
        match self.known_next_spec() {
            Some(k) => Some(k.due as int),
            None => min_due_spec(self.participants_seq()),
        }
    }

    /// Speakers sound and distinct by stream source id; cache in
    /// range.
    pub closed spec fn wf(&self) -> bool {
        &&& forall|i: int|
            0 <= i < self.participants@.len() ==> (#[trigger] self.participants@[i]).wf()
        &&& forall|i: int, j: int|
            0 <= i < j < self.participants@.len() ==> (#[trigger] self.participants@[i]).ssrc != (
            #[trigger] self.participants@[j]).ssrc
        &&& match self.known_next {
            Some(k) => 0 <= k.due <= JITTER_MAX_TS + JITTER_MAX_DURATION,
            None => true,
        }
    }

    /// A receiver with no speakers mapped.
    pub fn new() -> (r: Self)
        ensures
            r.wf(),
            r.participants_seq().len() == 0,
            r.known_next_spec() is None,
    {
        RtpReceiver { participants: Vec::new(), known_next: None }
    }

    /// The index of the speaker mapped to `ssrc`, if any.
    fn find_ssrc(&self, ssrc: u32) -> (r: Option<usize>)
        ensures
            match r {
                Some(i) => i < self.participants_seq().len()
                    && (self.participants_seq()[i as int]).ssrc == ssrc,
                None => forall|j: int|
                    0 <= j < self.participants_seq().len() ==> (
                    #[trigger] self.participants_seq()[j]).ssrc != ssrc,
            },
    {
        let n = self.participants.len();
        let mut i: usize = 0;
        while i < n
            invariant
                n == self.participants@.len(),
                0 <= i <= n,
                forall|j: int| 0 <= j < i ==> (#[trigger] self.participants@[j]).ssrc != ssrc,
            decreases n - i,
        {
            if self.participants[i].ssrc == ssrc {
                return Some(i);
            }
            i += 1;
        }
        None
    }

    /// The index of the speaker most recently mapped for `user`, if
    /// any.
    fn find_last_user(&self, user: u64) -> (r: Option<usize>)
        ensures
            match r {
                Some(i) => i < self.participants_seq().len()
                    && (self.participants_seq()[i as int]).user_id == user && forall|j: int|
                    i < j < self.participants_seq().len() ==> (
                    #[trigger] self.participants_seq()[j]).user_id != user,
                None => forall|j: int|
                    0 <= j < self.participants_seq().len() ==> (
                    #[trigger] self.participants_seq()[j]).user_id != user,
            },
    {
        let n = self.participants.len();
        let mut i: usize = n;
        while i > 0
            invariant
                n == self.participants@.len(),
                0 <= i <= n,
                forall|j: int| i <= j < n ==> (#[trigger] self.participants@[j]).user_id != user,
            decreases i,
        {
            i -= 1;
            if self.participants[i].user_id == user {
                return Some(i);
            }
        }
        None
    }

    /// Maps a speaker to a stream source id.
    ///
    /// A source id already mapped is left untouched; otherwise the
    /// speaker is appended with no buffer and no timestamp origin yet.
    pub fn map_user_id(&mut self, user: u64, ssrc: u32) -> (r: Result<(), DiscordError>)
        requires
            old(self).wf(),
        ensures
            final(self).wf(),
            r is Ok,
            map_rel(*old(self), *final(self), user, ssrc),
    {
        match self.find_ssrc(ssrc) {
            Some(_) => {
                return Ok(());
            },
            None => {},
        }
        let fresh = OtherParticipant {
            user_id: user,
            ssrc,
            jitterbuf: None,
            initial_timestamp: None,
            last_voice_length: ASSUMED_VOICE_LENGTH,
        };
        let ghost gfresh = fresh;
        self.participants.push(fresh);
        proof {
            let ps = self.participants@;
            let ps0 = old(self).participants_seq();
            let m = ps.len() - 1;
            assert(ps == ps0.push(gfresh));
            assert(ps[m] == gfresh);
            assert(gfresh.wf());
            assert forall|a: int| 0 <= a < ps.len() implies (#[trigger] ps[a]).wf() by {
                if a < m {
                    assert(ps[a] == ps0[a]);
                } else {
                    assert(ps[a] == gfresh);
                }
            }
            assert forall|a: int, b: int| 0 <= a < b < ps.len() implies (#[trigger] ps[a]).ssrc
                != (#[trigger] ps[b]).ssrc by {
                if b < m {
                    assert(ps[a] == ps0[a] && ps[b] == ps0[b]);
                } else {
                    assert(ps[a] == ps0[a]);
                }
            }
            if old(self).has_ssrc(ssrc) {
                let w = choose|w: int|
                    0 <= w < ps0.len() && (#[trigger] ps0[w]).ssrc == ssrc;
                assert(false);
            }
        }
        Ok(())
    }

    /// Unmaps the speaker most recently mapped for this user, if any,
    /// and forgets a cached due time that pointed at their stream.
    pub fn unmap_user_id(&mut self, user: u64)
        requires
            old(self).wf(),
        ensures
            final(self).wf(),
            unmap_rel(*old(self), *final(self), user),
    {
        let i = match self.find_last_user(user) {
            Some(i) => i,
            None => {
                proof {
                    if exists|w: int|
                        0 <= w < old(self).participants_seq().len() && (#[trigger] old(
                            self,
                        ).participants_seq()[w]).user_id == user {
                        let w = choose|w: int|
                            0 <= w < old(self).participants_seq().len() && (#[trigger] old(
                                self,
                            ).participants_seq()[w]).user_id == user;
                        assert(false);
                    }
                }
                return ;
            },
        };
        let removed = self.participants.remove(i);
        proof {
            let ps0 = old(self).participants_seq();
            let ii = i as int;
            ps0.remove_ensures(ii);
            assert(self.participants@ =~= ps0.remove(ii));
            assert forall|a: int|
                0 <= a < self.participants@.len() implies (
            #[trigger] self.participants@[a]).wf() by {
                if a < ii {
                    assert(ps0.remove(ii)[a] == ps0[a]);
                } else {
                    assert(ps0.remove(ii)[a] == ps0[a + 1]);
                }
            }
            assert forall|a: int, b: int|
                0 <= a < b < self.participants@.len() implies (
            #[trigger] self.participants@[a]).ssrc != (#[trigger] self.participants@[b]).ssrc by {
                if a < ii {
                    assert(ps0.remove(ii)[a] == ps0[a]);
                } else {
                    assert(ps0.remove(ii)[a] == ps0[a + 1]);
                }
                if b < ii {
                    assert(ps0.remove(ii)[b] == ps0[b]);
                } else {
                    assert(ps0.remove(ii)[b] == ps0[b + 1]);
                }
            }
        }
        match self.known_next {
            Some(k) => {
                if k.ssrc == removed.ssrc {
                    self.known_next = None;
                }
            },
            None => {},
        }
        proof {
            let ps0 = old(self).participants_seq();
            let ii = i as int;
            assert((ps0[ii]).user_id == user);
            assert(final(self).participants_seq() == ps0.remove(ii));
        }
    }

    /// Turns a decrypted datagram into the decode work it asks for.
    ///
    /// Control packets, packets whose extension block is truncated and
    /// packets from unmapped stream sources ask for nothing; the
    /// receiver itself is untouched either way.
    pub fn handle_packet(&self, packet: &VoicePacket) -> (r: Option<DecodeJob>)
        requires
            self.wf(),
            packet matches VoicePacket::Rtp(p) ==> p.data_range.start <= p.data_range.end
                <= p.buffer@.len(),
        ensures
            match packet {
                VoicePacket::Rtcp(_) => r is None,
                VoicePacket::Rtp(p) => match skip_ext_spec(
                    p.buffer@,
                    p.data_range.start as int,
                    p.data_range.end as int,
                ) {
                    None => r is None,
                    Some(w) => if self.has_ssrc(p.ssrc) {
                        r matches Some(job) && job.ssrc == p.ssrc && job.timestamp == p.timestamp
                            && job.payload_start == w.0 && job.payload_end == w.1
                    } else {
                        r is None
                    },
                },
            },
    {
        match packet {
            VoicePacket::Rtcp(_) => None,
            VoicePacket::Rtp(p) => {
                let window = skip_over_extensions(
                    &p.buffer,
                    p.data_range.start..p.data_range.end,
                );
                match window {
                    None => None,
                    Some(w) => {
                        match self.find_ssrc(p.ssrc) {
                            Some(_) => Some(
                                DecodeJob {
                                    ssrc: p.ssrc,
                                    timestamp: p.timestamp,
                                    payload_start: w.start,
                                    payload_end: w.end,
                                },
                            ),
                            None => {
                                proof {
                                    if self.has_ssrc(p.ssrc) {
                                        let x = choose|x: int|
                                            0 <= x < self.participants_seq().len() && (
                                            #[trigger] self.participants_seq()[x]).ssrc == p.ssrc;
                                        assert(false);
                                    }
                                }
                                None
                            },
                        }
                    },
                }
            },
        }
    }

    /// Files one decoded stereo frame into its speaker's buffer.
    ///
    /// The stereo audio is downmixed to mono by rounded-up averaging,
    /// its duration computed from the sample count, and the frame
    /// timed relative to the speaker's first observed packet.  An
    /// unmapped stream source id leaves the receiver untouched.
    #[verifier::rlimit(80)]
    pub fn accept_decoded(
        &mut self,
        ssrc: u32,
        timestamp: u32,
        stereo: &Vec<i16>,
        pairs: usize,
        now_ms: i64,
    )
        requires
            old(self).wf(),
            2 * pairs <= stereo@.len(),
            pairs <= 48000,
            0 <= now_ms <= JITTER_MAX_TS,
        ensures
            final(self).wf(),
            !old(self).has_ssrc(ssrc) ==> *final(self) == *old(self),
            old(self).has_ssrc(ssrc) ==> exists|i: int|
                {
                    &&& 0 <= i < old(self).participants_seq().len()
                    &&& (#[trigger] old(self).participants_seq()[i]).ssrc == ssrc
                    &&& final(self).participants_seq().len() == old(self).participants_seq().len()
                    &&& forall|j: int|
                        0 <= j < old(self).participants_seq().len() && j != i
                            ==> final(self).participants_seq()[j] == old(
                            self,
                        ).participants_seq()[j]
                    &&& accept_rel(
                        old(self).participants_seq()[i],
                        final(self).participants_seq()[i],
                        timestamp,
                        downmix_spec(stereo@, pairs as int),
                        dur_ms_spec(pairs as int),
                    )
                    &&& ({
                        let oldp = old(self).participants_seq()[i];
                        let base = match oldp.initial_timestamp {
                            Some(b) => b,
                            None => timestamp,
                        };
                        let rel = rel_ts_spec(timestamp, base);
                        &&& final(self).known_next_spec() == (match old(self).known_next_spec() {
                            None => None::<KnownNextFrameTime>,
                            Some(k0) => if reschedules(oldp, rel) {
                                if k0.ssrc == ssrc || rel + JB_TARGET_EXTRA < k0.due {
                                    Some(
                                        KnownNextFrameTime {
                                            due: (rel + JB_TARGET_EXTRA) as i64,
                                            ssrc,
                                        },
                                    )
                                } else {
                                    Some(k0)
                                }
                            } else {
                                Some(k0)
                            },
                        })
                        &&& (old(self).known_next_spec() is Some && reschedules(oldp, rel)
                            ==> (final(self).known_next_spec() matches Some(k1) && k1.due <= rel
                            + JB_TARGET_EXTRA))
                    })
                },
    {
        let i = match self.find_ssrc(ssrc) {
            Some(i) => i,
            None => {
                proof {
                    if old(self).has_ssrc(ssrc) {
                        let w = choose|w: int|
                            0 <= w < old(self).participants_seq().len() && (#[trigger] old(
                                self,
                            ).participants_seq()[w]).ssrc == ssrc;
                        assert(false);
                    }
                }
                return ;
            },
        };
        let mono = downmix_stereo(stereo, pairs);
        let ghost gmono = mono;
        proof {
            assert(mono@ =~= downmix_spec(stereo@, pairs as int));
        }
        let duration = ((1000u64 * pairs as u64) / 48000u64) as i64;
        let mut p = self.participants.remove(i);
        let ghost oldp = old(self).participants_seq()[i as int];
        let base = match p.initial_timestamp {
            Some(b) => b,
            None => {
                p.initial_timestamp = Some(timestamp);
                timestamp
            },
        };
        let wrapped = timestamp.wrapping_sub(base);
        let ts = ((1000u64 * wrapped as u64) / 48000u64) as i64;
        proof {
            vstd::arithmetic::div_mod::lemma_div_is_ordered(
                1000 * wrapped as int,
                1000 * 0xffffffffu32 as int,
                48000,
            );
            vstd::arithmetic::div_mod::lemma_div_is_ordered(
                1000 * pairs as int,
                1000 * 48000int,
                48000,
            );
            assert(ts == rel_ts_spec(timestamp, base));
            assert(duration == dur_ms_spec(pairs as int));
            assert(0 <= ts <= JITTER_MAX_TS);
            assert(0 <= duration <= JITTER_MAX_DURATION);
        }
        p.last_voice_length = duration;
        if p.jitterbuf.is_none() {
            p.jitterbuf = Some(
                JitterBuffer::new(
                    JitterConfig { max_frames: JB_MAX_FRAMES, target_extra: JB_TARGET_EXTRA },
                ),
            );
        }
        let ghost pre_buf = p.jitterbuf;
        let outcome = match &mut p.jitterbuf {
            Some(b) => b.put(mono, JitterFrameType::Voice, duration, ts),
            None => Ok(()),
        };
        proof {
            let f = JitterFrame::<Vec<i16>> {
                data: gmono,
                duration: duration,
                ts: ts,
                frame_type: JitterFrameType::Voice,
            };
            let pb = pre_buf.unwrap();
            assert((old(self).participants_seq()[i as int]).wf());
            assert(oldp.wf());
            match oldp.jitterbuf {
                Some(ob) => {
                    assert(pb == ob);
                    assert(ob.max_frames_spec() == JB_MAX_FRAMES);
                },
                None => {
                    assert(pb.frames_seq().len() == 0 && pb.cursor_spec() == 0);
                    assert(pb.max_frames_spec() == JB_MAX_FRAMES);
                },
            }
            let bframes = match oldp.jitterbuf {
                Some(ob) => ob.frames_seq(),
                None => Seq::<JitterFrame<Vec<i16>>>::empty(),
            };
            assert(pb.frames_seq() =~= bframes);
            pb.lemma_frames_wf();
            assert((outcome matches Err(JitterBufferErr::Scheduled)) <==> reschedules(
                oldp,
                ts as int,
            ));
        }
        match outcome {
            Err(JitterBufferErr::Scheduled) => {
                let t = match &p.jitterbuf {
                    Some(b) => {
                        proof {
                            b.lemma_frames_wf();
                            let f = JitterFrame::<Vec<i16>> {
                                data: gmono,
                                duration: duration,
                                ts: ts,
                                frame_type: JitterFrameType::Voice,
                            };
                            let pb = pre_buf.unwrap();
                            lemma_stable_insert_head(pb.frames_seq(), f, b.frames_seq());
                            assert(b.frames_seq()[0] == f);
                            assert(b.target_spec() == JB_TARGET_EXTRA);
                        }
                        b.next_frame()
                    },
                    None => None,
                };
                proof {
                    assert(t == Some((ts + JB_TARGET_EXTRA) as i64));
                }
                match (t, &mut self.known_next) {
                    (Some(due), Some(known)) => {
                        if known.ssrc == ssrc {
                            known.due = due;
                        } else if due < known.due {
                            known.due = due;
                            known.ssrc = ssrc;
                        }
                    },
                    _ => {},
                }
            },
            _ => {},
        }
        let ghost gp = p;
        self.participants.insert(i, p);
        proof {
            let ps0 = old(self).participants_seq();
            let ii = i as int;
            let ps = self.participants@;
            assert(ps =~= ps0.update(ii, ps[ii]));
            assert((ps0[ii]).ssrc == ssrc);
            assert(ps[ii] == gp);
            let f = JitterFrame::<Vec<i16>> {
                data: gmono,
                duration: duration,
                ts: ts,
                frame_type: JitterFrameType::Voice,
            };
            assert(f.duration == dur_ms_spec(pairs as int) as i64);
            assert(f.ts == rel_ts_spec(timestamp, base) as i64);
            assert(gp.initial_timestamp == Some(base));
            assert(gp.last_voice_length == duration);
            assert(gp.jitterbuf is Some);
            let nb = gp.jitterbuf.unwrap();
            if oldp.jitterbuf is None {
                let fresh = pre_buf.unwrap();
                assert(fresh.frames_seq().len() == 0 && fresh.cursor_spec() == 0);
                assert(fresh.frames_seq() =~= Seq::<JitterFrame<Vec<i16>>>::empty());
                assert(stable_insert_post(fresh.frames_seq(), f, nb.frames_seq()));
            } else {
                let ob = oldp.jitterbuf.unwrap();
                assert(pre_buf == Some(ob));
                assert(f.ts < ob.cursor_spec() ==> nb.frames_seq() == ob.frames_seq());
                assert(f.ts >= ob.cursor_spec() && ob.frames_seq().len() == JB_MAX_FRAMES
                    ==> stable_insert_post(ob.frames_seq().drop_first(), f, nb.frames_seq()));
                assert(f.ts >= ob.cursor_spec() && ob.frames_seq().len() < JB_MAX_FRAMES
                    ==> stable_insert_post(ob.frames_seq(), f, nb.frames_seq()));
            }
            assert forall|a: int| 0 <= a < ps.len() implies (#[trigger] ps[a]).wf() by {
                if a != ii {
                    assert(ps[a] == ps0[a]);
                }
            }
            assert forall|a: int, b: int| 0 <= a < b < ps.len() implies (#[trigger] ps[a]).ssrc
                != (#[trigger] ps[b]).ssrc by {
                if a != ii {
                    assert(ps[a] == ps0[a]);
                }
                if b != ii {
                    assert(ps[b] == ps0[b]);
                }
                assert((ps[ii]).ssrc == (ps0[ii]).ssrc);
            }
            assert(gmono@ == downmix_spec(stereo@, pairs as int));
            assert(accept_rel(
                ps0[ii],
                ps[ii],
                timestamp,
                downmix_spec(stereo@, pairs as int),
                dur_ms_spec(pairs as int),
            ));
        }
    }

    /// The due time the next fetch will act on, computing and caching
    /// the earliest across all buffers when no value is cached.
    fn next_frame_time(&mut self) -> (r: Option<i64>)
        requires
            old(self).wf(),
        ensures
            final(self).wf(),
            final(self).participants_seq() == old(self).participants_seq(),
            match r {
                Some(t) => old(self).pending_due_spec() == Some(t as int)
                    && final(self).pending_due_spec() == Some(t as int),
                None => old(self).pending_due_spec() is None
                    && final(self).pending_due_spec() is None,
            },
    {
        match &self.known_next {
            Some(k) => Some(k.due),
            None => {
                let n = self.participants.len();
                let mut best: Option<KnownNextFrameTime> = None;
                let mut i: usize = 0;
                while i < n
                    invariant
                        old(self).wf(),
                        n == self.participants@.len(),
                        self.participants@ == old(self).participants_seq(),
                        self.known_next == old(self).known_next_spec(),
                        0 <= i <= n,
                        forall|j: int|
                            0 <= j < n ==> (#[trigger] self.participants@[j]).wf(),
                        match best {
                            Some(b) => min_due_spec(self.participants@.subrange(0, i as int))
                                == Some(b.due as int) && 0 <= b.due <= JITTER_MAX_TS
                                + JITTER_MAX_DURATION,
                            None => min_due_spec(self.participants@.subrange(0, i as int)) is None,
                        },
                    decreases n - i,
                {
                    proof {
                        assert(self.participants@.subrange(0, i + 1).drop_last()
                            =~= self.participants@.subrange(0, i as int));
                        assert(self.participants@.subrange(0, i + 1).last()
                            == self.participants@[i as int]);
                    }
                    let d = match &self.participants[i].jitterbuf {
                        Some(b) => {
                            proof {
                                b.lemma_frames_wf();
                            }
                            b.next_frame()
                        },
                        None => None,
                    };
                    proof {
                        assert(due_of(self.participants@[i as int]) == (match d {
                            Some(t) => Some(t as int),
                            None => None::<int>,
                        }));
                    }
                    match d {
                        Some(due) => {
                            best = match best {
                                None => Some(KnownNextFrameTime { due, ssrc: self.participants[i].ssrc }),
                                Some(b) => {
                                    if due < b.due {
                                        Some(
                                            KnownNextFrameTime {
                                                due,
                                                ssrc: self.participants[i].ssrc,
                                            },
                                        )
                                    } else {
                                        Some(b)
                                    }
                                },
                            };
                        },
                        None => {},
                    }
                    i += 1;
                }
                proof {
                    assert(self.participants@.subrange(0, n as int) =~= self.participants@);
                }
                match best {
                    Some(b) => {
                        self.known_next = Some(b);
                        Some(b.due)
                    },
                    None => None,
                }
            },
        }
    }

    /// Retrieves and mixes the audio due at synthetic time `now_ms`.
    ///
    /// Before anything is due, says when to ask again.  At or past the
    /// due time, every speaker's buffer sheds its stale frames and
    /// contributes its ready frame, if any; the contributions are
    /// mixed, sample by sample with saturating addition, into one
    /// frame truncated to the shortest contribution.  The cached due
    /// time is forgotten once acted on.
    #[verifier::rlimit(80)]
    pub fn fetch_packet(&mut self, now_ms: i64) -> (r: FetchPacketResult)
        requires
            old(self).wf(),
            0 <= now_ms <= JITTER_MAX_TS,
        ensures
            final(self).wf(),
            match r {
                FetchPacketResult::CheckBackLater { time_ms } => {
                    &&& time_ms > now_ms
                    &&& final(self).pending_due_spec() == Some(time_ms as int)
                    &&& ((old(self).pending_due_spec() == Some(time_ms as int)
                        && final(self).participants_seq() == old(self).participants_seq())
                        || exists|
                        outcomes: Seq<Option<JitterFrame<Vec<i16>>>>,
                    |
                        {
                            &&& #[trigger] collection_pass(
                                old(self).participants_seq(),
                                final(self).participants_seq(),
                                outcomes,
                                now_ms as int,
                            )
                            &&& collected_of(outcomes).len() == 0
                            &&& Some(time_ms as int) == min_due_spec(
                                final(self).participants_seq(),
                            )
                        })
                },
                FetchPacketResult::NoneQueued => {
                    &&& min_due_spec(final(self).participants_seq()) is None
                    &&& final(self).known_next_spec() is None
                    &&& ((old(self).pending_due_spec() is None && final(self).participants_seq()
                        == old(self).participants_seq()) || exists|
                        outcomes: Seq<Option<JitterFrame<Vec<i16>>>>,
                    |
                        {
                            &&& #[trigger] collection_pass(
                                old(self).participants_seq(),
                                final(self).participants_seq(),
                                outcomes,
                                now_ms as int,
                            )
                            &&& collected_of(outcomes).len() == 0
                        })
                },
                FetchPacketResult::PacketAvailable { samples, duration_ms } => {
                    &&& old(self).pending_due_spec() matches Some(t) && t <= now_ms
                    &&& exists|outcomes: Seq<Option<JitterFrame<Vec<i16>>>>|
                        {
                            &&& #[trigger] collection_pass(
                                old(self).participants_seq(),
                                final(self).participants_seq(),
                                outcomes,
                                now_ms as int,
                            )
                            &&& collected_of(outcomes).len() > 0
                            &&& is_mix_of(samples@, collected_of(outcomes))
                        }
                    &&& duration_ms == 1000 * samples@.len() / 48000
                },
            },
    {
        let due = match self.next_frame_time() {
            None => {
                return FetchPacketResult::NoneQueued;
            },
            Some(t) => t,
        };
        if due > now_ms {
            return FetchPacketResult::CheckBackLater { time_ms: due };
        }
        self.known_next = None;
        let ghost ps0 = self.participants@;
        let mut collected: Vec<Vec<i16>> = Vec::new();
        let ghost mut outcomes: Seq<Option<JitterFrame<Vec<i16>>>> = Seq::empty();
        let n = self.participants.len();
        let mut idx: usize = 0;
        while idx < n
            invariant
                0 <= now_ms <= JITTER_MAX_TS,
                n == self.participants@.len(),
                ps0.len() == n,
                0 <= idx <= n,
                outcomes.len() == idx,
                self.known_next is None,
                forall|j: int| 0 <= j < n ==> (#[trigger] self.participants@[j]).wf(),
                forall|i: int, j: int|
                    0 <= i < j < n ==> (#[trigger] self.participants@[i]).ssrc != (
                    #[trigger] self.participants@[j]).ssrc,
                forall|j: int|
                    0 <= j < idx ==> collect_rel(
                        ps0[j],
                        self.participants@[j],
                        #[trigger] outcomes[j],
                        now_ms as int,
                    ),
                forall|j: int| idx <= j < n ==> #[trigger] self.participants@[j] == ps0[j],
                collected.deep_view() == collected_of(outcomes),
            decreases n - idx,
        {
            let ghost pre = self.participants@;
            let ghost pre_collected = collected.deep_view();
            proof {
                assert(self.participants@[idx as int] == ps0[idx as int]);
                assert forall|j: int| 0 <= j < idx implies collect_rel(
                    ps0[j],
                    pre[j],
                    #[trigger] outcomes[j],
                    now_ms as int,
                ) by {
                    assert(pre[j] == self.participants@[j]);
                }
            }
            let mut p = self.participants.remove(idx);
            let o = match &mut p.jitterbuf {
                Some(b) => next_ready_frame(b, now_ms, p.last_voice_length),
                None => None,
            };
            let ghost og = o;
            match o {
                Some(f) => {
                    collected.push(f.data);
                },
                None => {},
            }
            self.participants.insert(idx, p);
            proof {
                let ii = idx as int;
                assert(self.participants@ =~= pre.update(ii, self.participants@[ii]));
                assert(pre[ii] == ps0[ii]);
                assert(collect_rel(ps0[ii], self.participants@[ii], og, now_ms as int));
                let prev_outcomes = outcomes;
                outcomes = outcomes.push(og);
                assert(outcomes.drop_last() =~= prev_outcomes);
                assert(outcomes.last() == og);
                assert(collected.deep_view() =~~= collected_of(outcomes));
                assert forall|j: int|
                    0 <= j < outcomes.len() implies collect_rel(
                    ps0[j],
                    self.participants@[j],
                    #[trigger] outcomes[j],
                    now_ms as int,
                ) by {
                    if j < ii {
                        assert(outcomes[j] == prev_outcomes[j]);
                        assert(self.participants@[j] == pre[j]);
                        assert(collect_rel(ps0[j], pre[j], prev_outcomes[j], now_ms as int));
                    }
                }
            }
            idx += 1;
        }
        if collected.len() == 0 {
            proof {
                assert(collected_of(outcomes).len() == 0);
                lemma_collected_of_empty(outcomes);
                assert(collection_pass(ps0, self.participants@, outcomes, now_ms as int));
            }
            // Nothing was ready; say when the earliest surviving frame
            // falls due, so playout is never silently stalled.
            let next = self.next_frame_time();
            match next {
                Some(t) => {
                    proof {
                        let cur = self.participants@;
                        lemma_min_due_member(cur);
                        let w = choose|w: int|
                            0 <= w < cur.len() && due_of(#[trigger] cur[w]) == Some(t as int);
                        assert(collect_rel(ps0[w], cur[w], outcomes[w], now_ms as int));
                        assert(outcomes[w] is None);
                        match ps0[w].jitterbuf {
                            None => {
                                assert(due_of(cur[w]) is None);
                            },
                            Some(ob) => {
                                let fs = ob.frames_seq();
                                let k = stale_prefix(fs, ob.cursor_spec() as int);
                                lemma_stale_prefix_le(fs, ob.cursor_spec() as int);
                                let nb = cur[w].jitterbuf.unwrap();
                                assert(nb.frames_seq() == fs.skip(k));
                                assert(nb.frames_seq().len() > 0);
                                assert(k < fs.len());
                                assert(now_ms < fs[k].ts + ob.target_spec());
                                assert(fs.skip(k)[0] == fs[k]);
                                assert(due_of(cur[w]) == Some(fs[k].ts + nb.target_spec() as int));
                                assert(t > now_ms);
                            },
                        }
                    }
                    return FetchPacketResult::CheckBackLater { time_ms: t };
                },
                None => {
                    return FetchPacketResult::NoneQueued;
                },
            }
        }
        let samples = mix_frames(&collected);
        let slen = samples.len();
        let duration_ms = ((1000u128 * slen as u128) / 48000u128) as i64;
        proof {
            vstd::arithmetic::div_mod::lemma_div_is_ordered(
                1000 * slen as int,
                1000 * 0xffffffffffffffffu64 as int,
                48000,
            );
            assert(is_mix_of(samples@, collected_of(outcomes)));
            assert(collected_of(outcomes).len() > 0);
            assert(collection_pass(ps0, self.participants@, outcomes, now_ms as int));
        }
        FetchPacketResult::PacketAvailable { samples, duration_ms }
    }
}

/// Every frame among the first `k` is at least as long as the overall
/// minimum.
proof fn lemma_min_frame_len_le(frames: Seq<Seq<i16>>, k: int)
    requires
        0 < k <= frames.len(),
    ensures
        forall|j: int| 0 <= j < k ==> min_frame_len(frames) <= #[trigger] frames[j].len(),
        min_frame_len(frames) <= min_frame_len(frames.subrange(0, k)),
    decreases frames.len(),
{
    if frames.len() == 0 {
    } else if frames.len() == 1 {
        assert(frames.subrange(0, k) =~= frames);
    } else if k == frames.len() {
        lemma_min_frame_len_le(frames.drop_last(), k - 1);
        assert(frames.subrange(0, k) =~= frames);
        assert(forall|j: int|
            0 <= j < k - 1 ==> frames.drop_last()[j] == #[trigger] frames[j]);
        assert(frames[k - 1] == frames.last());
    } else {
        lemma_min_frame_len_le(frames.drop_last(), k);
        assert(frames.drop_last().subrange(0, k) =~= frames.subrange(0, k));
        assert(forall|j: int|
            0 <= j < frames.len() - 1 ==> frames.drop_last()[j] == #[trigger] frames[j]);
    }
}

} // verus!
