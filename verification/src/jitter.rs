//! A per-speaker jitter buffer.
//!
//! Frames arrive tagged with a delivery timestamp in milliseconds
//! relative to the buffer's epoch, possibly out of order, and are
//! released in timestamp order at a synthetic playout time: a frame
//! falls due a fixed extra delay after its timestamp.  The playout
//! cursor only moves forward; frames that arrive behind it, or get
//! displaced when the buffer is full, are handed back to the caller to
//! be dropped.

use vstd::prelude::*;

verus! {

/// Upper bound on timestamps the buffer accepts, in milliseconds.
pub const JITTER_MAX_TS: i64 = 0x1000000000000000;

/// Upper bound on frame durations and on the playout delay, in
/// milliseconds.
pub const JITTER_MAX_DURATION: i64 = 0x100000;

/// The kind of content a buffered frame carries.
#[derive(Copy, Clone, Debug, PartialEq, Eq, Structural)]
pub enum JitterFrameType {
    Control,
    Voice,
    Video,
    Silence,
}

/// One buffered frame: its payload, duration and delivery timestamp,
/// both in milliseconds, and its kind.
pub struct JitterFrame<T> {
    pub data: T,
    pub duration: i64,
    pub ts: i64,
    pub frame_type: JitterFrameType,
}

/// Sizing of a jitter buffer: how many frames it holds before the
/// oldest is displaced, and how much playout delay each frame gets.
pub struct JitterConfig {
    pub max_frames: usize,
    pub target_extra: i64,
}

/// Outcomes of `put` and `get` besides a delivered frame.
pub enum JitterBufferErr<T> {
    /// The buffer holds nothing.
    Empty,
    /// No buffered frame is due at this time.
    NoFrame,
    /// A frame is missing at the expected playout instant; the caller
    /// should synthesize audio of the expected duration.
    Interpolate,
    /// This frame must be discarded: it arrived behind the playout
    /// cursor or was displaced by a newer one.
    Drop { frame: JitterFrame<T> },
    /// The next due time changed; re-query `next_frame`.
    Scheduled,
}

/// A frame's timestamp and duration lie within the accepted bounds.
pub open spec fn frame_wf<T>(f: JitterFrame<T>) -> bool {
    &&& 0 <= f.ts <= JITTER_MAX_TS
    &&& 0 <= f.duration <= JITTER_MAX_DURATION
}

/// Frames ordered by delivery timestamp.
pub open spec fn sorted_frames<T>(s: Seq<JitterFrame<T>>) -> bool {
    forall|i: int, j: int| 0 <= i < j < s.len() ==> #[trigger] s[i].ts <= #[trigger] s[j].ts
}

/// `result` is `base` with `f` inserted after every frame of
/// timestamp at most `f.ts` and before every later one.
pub open spec fn stable_insert_post<T>(
    base: Seq<JitterFrame<T>>,
    f: JitterFrame<T>,
    result: Seq<JitterFrame<T>>,
) -> bool {
    exists|pos: int|
        {
            &&& 0 <= pos <= base.len()
            &&& result == #[trigger] base.insert(pos, f)
            &&& forall|j: int| 0 <= j < pos ==> #[trigger] base[j].ts <= f.ts
            &&& forall|j: int| pos <= j < base.len() ==> #[trigger] base[j].ts > f.ts
        }
}

/// A frame accepted ahead of every buffered one becomes the new head.
pub proof fn lemma_stable_insert_head<T>(
    base: Seq<JitterFrame<T>>,
    f: JitterFrame<T>,
    result: Seq<JitterFrame<T>>,
)
    requires
        stable_insert_post(base, f, result),
        base.len() == 0 || base[0].ts > f.ts,
    ensures
        result.len() == base.len() + 1,
        result[0] == f,
{
    let pos = choose|pos: int|
        {
            &&& 0 <= pos <= base.len()
            &&& result == #[trigger] base.insert(pos, f)
            &&& forall|j: int| 0 <= j < pos ==> #[trigger] base[j].ts <= f.ts
            &&& forall|j: int| pos <= j < base.len() ==> #[trigger] base[j].ts > f.ts
        };
    if pos > 0 {
        assert(base[0].ts <= f.ts);
    }
    base.insert_ensures(pos, f);
}

/// Inserting a frame at its partition point keeps the frames sorted
/// and in bounds.
proof fn lemma_insert_sorted<T>(base: Seq<JitterFrame<T>>, f: JitterFrame<T>, pos: int)
    requires
        sorted_frames(base),
        forall|i: int| 0 <= i < base.len() ==> frame_wf(#[trigger] base[i]),
        frame_wf(f),
        0 <= pos <= base.len(),
        forall|j: int| 0 <= j < pos ==> #[trigger] base[j].ts <= f.ts,
        forall|j: int| pos <= j < base.len() ==> #[trigger] base[j].ts > f.ts,
    ensures
        sorted_frames(base.insert(pos, f)),
        forall|i: int|
            0 <= i < base.insert(pos, f).len() ==> frame_wf(#[trigger] base.insert(pos, f)[i]),
{
    let s = base.insert(pos, f);
    base.insert_ensures(pos, f);
    assert forall|i: int, j: int| 0 <= i < j < s.len() implies #[trigger] s[i].ts
        <= #[trigger] s[j].ts by {
        if i < pos {
            assert(s[i] == base[i]);
        } else if i == pos {
            assert(s[i] == f);
        } else {
            assert(s[i] == base[i - 1]);
        }
        if j < pos {
            assert(s[j] == base[j]);
        } else if j == pos {
            assert(s[j] == f);
        } else {
            assert(s[j] == base[j - 1]);
        }
    }
    assert forall|i: int| 0 <= i < s.len() implies frame_wf(#[trigger] s[i]) by {
        if i < pos {
            assert(s[i] == base[i]);
        } else if i == pos {
            assert(s[i] == f);
        } else {
            assert(s[i] == base[i - 1]);
        }
    }
}

/// The ordered reorder buffer of one speaker.
pub struct JitterBuffer<T> {
    conf: JitterConfig,
    frames: Vec<JitterFrame<T>>,
    cursor: i64,
    next_expected: i64,
    has_expected: bool,
}

impl<T> JitterBuffer<T> {
    /// The buffered frames, in playout order.
    pub closed spec fn frames_seq(&self) -> Seq<JitterFrame<T>> {
        self.frames@
    }

    /// The playout cursor: the lowest timestamp still admissible.
    pub closed spec fn cursor_spec(&self) -> i64 {
        self.cursor
    }

    /// The configured playout delay.
    pub closed spec fn target_spec(&self) -> i64 {
        self.conf.target_extra
    }

    /// The configured capacity.
    pub closed spec fn max_frames_spec(&self) -> int {
        self.conf.max_frames as int
    }

    /// The timestamp at which the next contiguous frame is expected,
    /// once a frame has been delivered.
    pub closed spec fn expected_spec(&self) -> Option<i64> {
        if self.has_expected {
            Some(self.next_expected)
        } else {
            None
        }
    }

    /// Structural soundness: frames sorted and in bounds, capacity
    /// respected, cursor and expectation in range.
    pub closed spec fn wf(&self) -> bool {
        &&& sorted_frames(self.frames@)
        &&& forall|i: int| 0 <= i < self.frames@.len() ==> frame_wf(#[trigger] self.frames@[i])
        &&& self.frames@.len() <= self.conf.max_frames
        &&& self.conf.max_frames >= 1
        &&& 0 <= self.conf.target_extra <= JITTER_MAX_DURATION
        &&& 0 <= self.cursor <= JITTER_MAX_TS + JITTER_MAX_DURATION
        &&& 0 <= self.next_expected <= JITTER_MAX_TS + JITTER_MAX_DURATION
    }

    /// Every buffered frame lies within the accepted bounds; the
    /// frames are ordered by timestamp, so the head is the earliest;
    /// and the configured capacity is never exceeded.
    pub proof fn lemma_frames_wf(&self)
        requires
            self.wf(),
        ensures
            forall|i: int|
                0 <= i < self.frames_seq().len() ==> frame_wf(#[trigger] self.frames_seq()[i]),
            sorted_frames(self.frames_seq()),
            self.frames_seq().len() <= self.max_frames_spec(),
    {
    }

    /// An empty buffer with the given sizing.
    pub fn new(conf: JitterConfig) -> (r: Self)
        requires
            conf.max_frames >= 1,
            0 <= conf.target_extra <= JITTER_MAX_DURATION,
        ensures
            r.wf(),
            r.frames_seq().len() == 0,
            r.cursor_spec() == 0,
            r.target_spec() == conf.target_extra,
            r.max_frames_spec() == conf.max_frames,
            r.expected_spec() is None,
    {
        JitterBuffer {
            conf,
            frames: Vec::new(),
            cursor: 0,
            next_expected: 0,
            has_expected: false,
        }
    }

    /// Inserts one frame.
    ///
    /// A frame behind the playout cursor is handed straight back to be
    /// dropped.  When the buffer is full the oldest frame is displaced
    /// and handed back.  Otherwise the frame takes its place in
    /// timestamp order, after any frame of equal timestamp; becoming
    /// the new head is signalled as a schedule change.
    #[verifier::rlimit(100)]
    pub fn put(&mut self, data: T, frame_type: JitterFrameType, duration: i64, ts: i64) -> (r:
        Result<(), JitterBufferErr<T>>)
        requires
            old(self).wf(),
            0 <= ts <= JITTER_MAX_TS,
            0 <= duration <= JITTER_MAX_DURATION,
        ensures
            final(self).wf(),
            final(self).cursor_spec() == old(self).cursor_spec(),
            final(self).target_spec() == old(self).target_spec(),
            final(self).max_frames_spec() == old(self).max_frames_spec(),
            final(self).expected_spec() == old(self).expected_spec(),
            ts < old(self).cursor_spec() ==> final(self).frames_seq() == old(self).frames_seq()
                && (r matches Err(JitterBufferErr::Drop { frame }) && frame == (JitterFrame {
                data,
                duration,
                ts,
                frame_type,
            })),
            ts >= old(self).cursor_spec() && old(self).frames_seq().len() == old(
                self,
            ).max_frames_spec() ==> stable_insert_post(
                old(self).frames_seq().drop_first(),
                JitterFrame { data, duration, ts, frame_type },
                final(self).frames_seq(),
            ) && (r matches Err(JitterBufferErr::Drop { frame }) && frame == old(
                self,
            ).frames_seq()[0]),
            ts >= old(self).cursor_spec() && old(self).frames_seq().len() < old(
                self,
            ).max_frames_spec() ==> stable_insert_post(
                old(self).frames_seq(),
                JitterFrame { data, duration, ts, frame_type },
                final(self).frames_seq(),
            ) && r == if old(self).frames_seq().len() == 0 || old(self).frames_seq()[0].ts > ts {
                Err::<(), JitterBufferErr<T>>(JitterBufferErr::Scheduled)
            } else {
                Ok::<(), JitterBufferErr<T>>(())
            },
    {
        if ts < self.cursor {
            return Err(
                JitterBufferErr::Drop { frame: JitterFrame { data, duration, ts, frame_type } },
            );
        }
        let was_full = self.frames.len() == self.conf.max_frames;
        let ghost was_empty_or_later = self.frames@.len() == 0 || self.frames@[0].ts > ts;
        let mut displaced: Option<JitterFrame<T>> = None;
        if was_full {
            displaced = Some(self.frames.remove(0));
            proof {
                assert(self.frames@ =~= old(self).frames_seq().drop_first());
            }
        }
        let ghost base = self.frames@;
        let f = JitterFrame { data, duration, ts, frame_type };
        let mut pos: usize = self.frames.len();
        while pos > 0 && self.frames[pos - 1].ts > ts
            invariant
                0 <= pos <= self.frames@.len(),
                sorted_frames(self.frames@),
                base == self.frames@,
                forall|j: int| pos <= j < self.frames@.len() ==> #[trigger] self.frames@[j].ts > ts,
            decreases pos,
        {
            pos -= 1;
        }
        proof {
            assert(forall|j: int| 0 <= j < pos ==> #[trigger] base[j].ts <= ts);
        }
        self.frames.insert(pos, f);
        proof {
            let s = self.frames@;
            let p = pos as int;
            base.insert_ensures(p, f);
            assert(s == base.insert(p, f));
            assert(stable_insert_post(base, f, s));
            lemma_insert_sorted(base, f, p);
            if !was_full {
                assert(pos == 0 <==> was_empty_or_later);
            }
        }
        match displaced {
            Some(frame) => Err(JitterBufferErr::Drop { frame }),
            None => {
                if pos == 0 {
                    Err(JitterBufferErr::Scheduled)
                } else {
                    Ok(())
                }
            },
        }
    }

    /// The playout time of the next buffered frame, or nothing when
    /// empty.
    pub fn next_frame(&self) -> (r: Option<i64>)
        requires
            self.wf(),
        ensures
            r == if self.frames_seq().len() == 0 {
                None::<i64>
            } else {
                Some((self.frames_seq()[0].ts + self.target_spec()) as i64)
            },
    {
        if self.frames.len() == 0 {
            None
        } else {
            Some(self.frames[0].ts + self.conf.target_extra)
        }
    }

    /// Retrieves the frame due at synthetic time `now`.
    ///
    /// Outcomes: the head frame once its playout time has come; a drop
    /// notification for a head behind the cursor; an interpolation
    /// request when the contiguous stream has a gap at `now`; no frame
    /// before the head is due; empty when nothing is buffered.  With
    /// frames buffered, none behind the cursor, none yet due and no
    /// gap pending, the answer is exactly "no frame scheduled" and the
    /// buffer keeps every frame.
    pub fn get(&mut self, now: i64, expected_frame_length: i64) -> (r: Result<
        JitterFrame<T>,
        JitterBufferErr<T>,
    >)
        requires
            old(self).wf(),
            0 <= now <= JITTER_MAX_TS,
            0 <= expected_frame_length <= JITTER_MAX_DURATION,
        ensures
            final(self).wf(),
            final(self).target_spec() == old(self).target_spec(),
            final(self).max_frames_spec() == old(self).max_frames_spec(),
            final(self).cursor_spec() >= old(self).cursor_spec(),
            match r {
                Ok(f) => {
                    &&& old(self).frames_seq().len() > 0
                    &&& f == old(self).frames_seq()[0]
                    &&& f.ts >= old(self).cursor_spec()
                    &&& now >= f.ts + old(self).target_spec()
                    &&& final(self).frames_seq() == old(self).frames_seq().drop_first()
                    &&& final(self).cursor_spec() == f.ts + f.duration
                    &&& final(self).expected_spec() == Some((f.ts + f.duration) as i64)
                },
                Err(JitterBufferErr::Empty) => {
                    &&& old(self).frames_seq().len() == 0
                    &&& *final(self) == *old(self)
                },
                Err(JitterBufferErr::Drop { frame }) => {
                    &&& old(self).frames_seq().len() > 0
                    &&& frame == old(self).frames_seq()[0]
                    &&& frame.ts < old(self).cursor_spec()
                    &&& final(self).frames_seq() == old(self).frames_seq().drop_first()
                    &&& final(self).cursor_spec() == old(self).cursor_spec()
                    &&& final(self).expected_spec() == old(self).expected_spec()
                },
                Err(JitterBufferErr::Interpolate) => {
                    &&& old(self).frames_seq().len() > 0
                    &&& old(self).frames_seq()[0].ts >= old(self).cursor_spec()
                    &&& now < old(self).frames_seq()[0].ts + old(self).target_spec()
                    &&& old(self).expected_spec() matches Some(e) && now >= e + old(
                        self,
                    ).target_spec()
                    &&& final(self).frames_seq() == old(self).frames_seq()
                    &&& final(self).cursor_spec() == old(self).cursor_spec()
                    &&& final(self).expected_spec() == Some(
                        (old(self).expected_spec().unwrap() + expected_frame_length) as i64,
                    )
                },
                Err(JitterBufferErr::NoFrame) => {
                    &&& old(self).frames_seq().len() > 0
                    &&& old(self).frames_seq()[0].ts >= old(self).cursor_spec()
                    &&& now < old(self).frames_seq()[0].ts + old(self).target_spec()
                    &&& *final(self) == *old(self)
                },
                Err(JitterBufferErr::Scheduled) => false,
            },
            ({
                let s = old(self).frames_seq();
                (s.len() > 0 && s[0].ts >= old(self).cursor_spec() && now < s[0].ts + old(
                    self,
                ).target_spec() && (match old(self).expected_spec() {
                    Some(e) => now < e + old(self).target_spec(),
                    None => true,
                })) ==> (r matches Err(outcome) && outcome is NoFrame)
            }),
    {
        if self.frames.len() == 0 {
            return Err(JitterBufferErr::Empty);
        }
        if self.frames[0].ts < self.cursor {
            let frame = self.frames.remove(0);
            return Err(JitterBufferErr::Drop { frame });
        }
        let due = self.frames[0].ts + self.conf.target_extra;
        if now >= due {
            let frame = self.frames.remove(0);
            self.cursor = frame.ts + frame.duration;
            self.next_expected = frame.ts + frame.duration;
            self.has_expected = true;
            return Ok(frame);
        }
        if self.has_expected && now >= self.next_expected + self.conf.target_extra {
            if self.next_expected <= JITTER_MAX_TS {
                self.next_expected = self.next_expected + expected_frame_length;
                return Err(JitterBufferErr::Interpolate);
            }
        }
        Err(JitterBufferErr::NoFrame)
    }

    /// Retrieves the head frame regardless of timing; used to drain the
    /// buffer.
    pub fn get_unconditionally(&mut self) -> (r: Result<JitterFrame<T>, JitterBufferErr<T>>)
        requires
            old(self).wf(),
        ensures
            final(self).wf(),
            final(self).target_spec() == old(self).target_spec(),
            final(self).max_frames_spec() == old(self).max_frames_spec(),
            match r {
                Ok(f) => {
                    &&& old(self).frames_seq().len() > 0
                    &&& f == old(self).frames_seq()[0]
                    &&& final(self).frames_seq() == old(self).frames_seq().drop_first()
                },
                Err(JitterBufferErr::Empty) => {
                    &&& old(self).frames_seq().len() == 0
                    &&& *final(self) == *old(self)
                },
                Err(_) => false,
            },
    {
        if self.frames.len() == 0 {
            return Err(JitterBufferErr::Empty);
        }
        let frame = self.frames.remove(0);
        if frame.ts <= JITTER_MAX_TS && frame.ts + frame.duration > self.cursor {
            self.cursor = frame.ts + frame.duration;
        }
        Ok(frame)
    }
}

} // verus!
