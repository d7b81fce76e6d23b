//! The playback prefetch core: a bounded frame queue ahead of the
//! playhead, throttled to the audio master clock, with detection and retry
//! of post-seek black frames. The background thread and the renders live
//! outside; their outcomes feed back in here.

use vstd::prelude::*;
use crate::clip::MAX_TIME_MS;
use crate::frame::{RenderedFrame, RenderedFrameView};
use crate::frame_queue::{abs_diff, queue_push_model, FrameQueue};

verus! {

/// Nominal frame step at the 30 fps prefetch rate (ms).
pub const FRAME_STEP_MS: i64 = 33;

/// How far the prefetcher may run ahead of the last requested time (ms).
pub const PREFETCH_AHEAD_LIMIT_MS: i64 = 500;

/// How far a served frame's timestamp may sit from the requested one (ms).
pub const FRAME_TOLERANCE_MS: i64 = 50;

/// How many consecutive black frames are retried before skipping ahead.
pub const BLACK_RETRY_LIMIT: u32 = 5;

/// How far the prefetch position jumps when every retry stayed black (ms).
pub const BLACK_SKIP_MS: i64 = 200;

/// A rendered frame carrying the black post-seek artifact: its first
/// pixel's alpha byte is zero.
pub open spec fn spec_is_black_frame(f: RenderedFrameView) -> bool {
    f.data.len() >= 4 && f.data[3] == 0
}

/// What one fill iteration leaves in the queue: a black artifact is never
/// pushed; a good frame enters (evicting the oldest when full).
pub open spec fn fill_observe(q: Seq<RenderedFrameView>, f: RenderedFrameView) -> Seq<
    RenderedFrameView,
> {
    if spec_is_black_frame(f) {
        q
    } else {
        queue_push_model(q, f)
    }
}

/// The playback prefetch state: the queue, the playhead bookkeeping, and
/// the cancel flag. The owning thread drives it; the consumer reads frames
/// by timestamp.
pub struct PlaybackEngine {
    pub frame_queue: FrameQueue,
    pub cancelled: bool,
    pub start_time_ms: i64,
    /// The next timestamp the fill loop will render.
    pub current_prefetch_ms: i64,
    /// The timestamp the consumer most recently asked for — the audio
    /// master clock's feedback.
    pub last_requested_ms: i64,
}

impl PlaybackEngine {
    /// Well-formedness: a valid queue and bookkeeping in range.
    pub open spec fn valid(self) -> bool {
        &&& self.frame_queue.valid()
        &&& 0 <= self.start_time_ms <= MAX_TIME_MS
        &&& 0 <= self.current_prefetch_ms <= 2 * MAX_TIME_MS
        &&& -MAX_TIME_MS <= self.last_requested_ms <= 2 * MAX_TIME_MS
        &&& forall|k: int|
            0 <= k < self.frame_queue@.len() ==> -MAX_TIME_MS <= (
            #[trigger] self.frame_queue@[k]).timestamp_ms <= 2 * MAX_TIME_MS
    }

    pub fn new() -> (e: PlaybackEngine)
        ensures
            e.valid(),
            e.frame_queue@.len() == 0,
            !e.cancelled,
            e.start_time_ms == 0,
            e.current_prefetch_ms == 0,
            e.last_requested_ms == 0,
    {
        PlaybackEngine {
            frame_queue: FrameQueue::new(),
            cancelled: false,
            start_time_ms: 0,
            current_prefetch_ms: 0,
            last_requested_ms: 0,
        }
    }

    /// Begin playback at `start_ms`: the queue is emptied, all three
    /// positions reset to the start, and the cancel flag cleared. The
    /// caller then spawns the fill loop and waits briefly for a first
    /// frame.
    pub fn start(&mut self, start_ms: i64)
        requires
            old(self).valid(),
            0 <= start_ms <= MAX_TIME_MS,
        ensures
            final(self).valid(),
            final(self).frame_queue@.len() == 0,
            !final(self).cancelled,
            final(self).start_time_ms == start_ms,
            final(self).current_prefetch_ms == start_ms,
            final(self).last_requested_ms == start_ms,
    {
        self.start_time_ms = start_ms;
        self.current_prefetch_ms = start_ms;
        self.last_requested_ms = start_ms;
        self.cancelled = false;
        self.frame_queue.clear();
    }

    /// End playback: the fill loop sees the flag and exits; the queue is
    /// emptied.
    pub fn stop(&mut self)
        requires
            old(self).valid(),
        ensures
            final(self).valid(),
            final(self).cancelled,
            final(self).frame_queue@.len() == 0,
            final(self).start_time_ms == old(self).start_time_ms,
            final(self).current_prefetch_ms == old(self).current_prefetch_ms,
            final(self).last_requested_ms == old(self).last_requested_ms,
    {
        self.cancelled = true;
        self.frame_queue.clear();
    }

    /// Serve the queued frame nearest `timestamp_ms` (within the
    /// tolerance) without consuming it, and feed the requested time back
    /// to the fill loop as the master clock position.
    pub fn try_get_frame(&mut self, timestamp_ms: i64) -> (r: Option<RenderedFrame>)
        requires
            old(self).valid(),
            0 <= timestamp_ms <= MAX_TIME_MS,
        ensures
            final(self).valid(),
            final(self).last_requested_ms == timestamp_ms,
            final(self).frame_queue@ == old(self).frame_queue@,
            final(self).cancelled == old(self).cancelled,
            final(self).current_prefetch_ms == old(self).current_prefetch_ms,
            match r {
                Some(f) => exists|i: int|
                    {
                        &&& 0 <= i < old(self).frame_queue@.len()
                        &&& f@ == old(self).frame_queue@[i]
                        &&& abs_diff(
                            (#[trigger] old(self).frame_queue@[i]).timestamp_ms as int,
                            timestamp_ms as int,
                        ) <= FRAME_TOLERANCE_MS
                        &&& forall|j: int|
                            0 <= j < old(self).frame_queue@.len() ==> abs_diff(
                                (#[trigger] old(self).frame_queue@[j]).timestamp_ms as int,
                                timestamp_ms as int,
                            ) >= abs_diff(
                                old(self).frame_queue@[i].timestamp_ms as int,
                                timestamp_ms as int,
                            )
                    },
                None => forall|i: int|
                    0 <= i < old(self).frame_queue@.len() ==> abs_diff(
                        (#[trigger] old(self).frame_queue@[i]).timestamp_ms as int,
                        timestamp_ms as int,
                    ) > FRAME_TOLERANCE_MS,
            },
    {
        self.last_requested_ms = timestamp_ms;
        self.frame_queue.peek_nearest(timestamp_ms, FRAME_TOLERANCE_MS)
    }

    /// Pacing: the fill loop sleeps instead of rendering while it is more
    /// than the ahead limit in front of the consumer.
    pub fn should_wait(&self) -> (r: bool)
        requires
            self.valid(),
        ensures
            r == (self.current_prefetch_ms - self.last_requested_ms > PREFETCH_AHEAD_LIMIT_MS),
    {
        self.current_prefetch_ms - self.last_requested_ms > PREFETCH_AHEAD_LIMIT_MS
    }

    /// Fold one rendered frame into the queue: a black post-seek artifact
    /// is rejected (the caller retries); a good frame is queued and the
    /// prefetch position recorded.
    pub fn accept_frame(&mut self, frame: RenderedFrame, rendered_at_ms: i64) -> (pushed: bool)
        requires
            old(self).valid(),
            0 <= rendered_at_ms <= 2 * MAX_TIME_MS,
            -MAX_TIME_MS <= frame.timestamp_ms <= 2 * MAX_TIME_MS,
        ensures
            final(self).valid(),
            pushed == !spec_is_black_frame(frame@),
            final(self).frame_queue@ == fill_observe(old(self).frame_queue@, frame@),
            final(self).cancelled == old(self).cancelled,
            final(self).start_time_ms == old(self).start_time_ms,
            final(self).last_requested_ms == old(self).last_requested_ms,
            pushed ==> final(self).current_prefetch_ms == rendered_at_ms,
            !pushed ==> final(self).current_prefetch_ms == old(self).current_prefetch_ms,
    {
        let is_black = frame.data.len() >= 4 && frame.data[3] == 0;
        if is_black {
            return false;
        }
        self.frame_queue.push(frame);
        self.current_prefetch_ms = rendered_at_ms;
        true
    }

    /// How many frames are queued.
    pub fn queue_len(&self) -> (r: usize)
        ensures
            r == self.frame_queue@.len(),
    {
        self.frame_queue.len()
    }
}

/// The retry position: the k-th retry after a black frame looks one frame
/// step further ahead.
pub fn black_retry_ms(base_ms: i64, attempt: u32) -> (r: i64)
    requires
        0 <= base_ms <= 2 * MAX_TIME_MS,
        attempt <= BLACK_RETRY_LIMIT,
    ensures
        r == base_ms + attempt * FRAME_STEP_MS,
{
    base_ms + (attempt as i64) * FRAME_STEP_MS
}

/// Where the prefetch position jumps after every retry stayed black.
pub fn black_skip_ms(base_ms: i64) -> (r: i64)
    requires
        0 <= base_ms <= 2 * MAX_TIME_MS,
    ensures
        r == base_ms + BLACK_SKIP_MS,
{
    base_ms + BLACK_SKIP_MS
}

/// Black-frame retry: when the renderer hands back three black artifacts
/// and then a good frame, the queue gains exactly the good frame — none of
/// the artifacts enters it.
pub proof fn lemma_black_frame_retry(
    q: Seq<RenderedFrameView>,
    b1: RenderedFrameView,
    b2: RenderedFrameView,
    b3: RenderedFrameView,
    good: RenderedFrameView,
)
    requires
        spec_is_black_frame(b1),
        spec_is_black_frame(b2),
        spec_is_black_frame(b3),
        !spec_is_black_frame(good),
    ensures
        fill_observe(fill_observe(fill_observe(fill_observe(q, b1), b2), b3), good)
            == queue_push_model(q, good),
        fill_observe(fill_observe(fill_observe(fill_observe(q, b1), b2), b3), good).last() == good,
{
}

} // verus!
