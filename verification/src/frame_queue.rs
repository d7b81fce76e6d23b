//! A fixed-capacity ordered buffer of rendered frames used for playback
//! prefetch. Pushing past capacity evicts from the oldest end; lookups
//! return the frame nearest a requested timestamp without consuming it.

use vstd::prelude::*;
use crate::frame::{RenderedFrame, RenderedFrameView};

verus! {

/// How many frames the queue holds at most.
pub const QUEUE_CAPACITY: usize = 16;

/// The abstract contents after pushing `f` onto `s`: the last
/// `QUEUE_CAPACITY` frames of `s` extended by `f`.
pub open spec fn queue_push_model(s: Seq<RenderedFrameView>, f: RenderedFrameView) -> Seq<
    RenderedFrameView,
> {
    if s.len() >= QUEUE_CAPACITY {
        s.skip(s.len() - QUEUE_CAPACITY + 1).push(f)
    } else {
        s.push(f)
    }
}

/// A bounded queue of rendered frames, oldest first.
pub struct FrameQueue {
    pub buffer: Vec<RenderedFrame>,
    pub max_len: usize,
}

impl View for FrameQueue {
    type V = Seq<RenderedFrameView>;

    open spec fn view(&self) -> Seq<RenderedFrameView> {
        self.buffer@.map_values(|f: RenderedFrame| f@)
    }
}

impl FrameQueue {
    /// Well-formedness: the capacity is fixed and never exceeded.
    pub open spec fn valid(self) -> bool {
        &&& self.max_len == QUEUE_CAPACITY
        &&& self.buffer@.len() <= QUEUE_CAPACITY
    }

    pub fn new() -> (q: FrameQueue)
        ensures
            q.valid(),
            q@.len() == 0,
    {
        FrameQueue { buffer: Vec::new(), max_len: QUEUE_CAPACITY }
    }

    /// Append a frame, evicting from the oldest end when full.
    pub fn push(&mut self, frame: RenderedFrame)
        requires
            old(self).valid(),
        ensures
            final(self).valid(),
            final(self)@ == queue_push_model(old(self)@, frame@),
            final(self)@.len() <= QUEUE_CAPACITY,
            final(self)@.last() == frame@,
    {
        while self.buffer.len() >= self.max_len
            invariant
                self.max_len == QUEUE_CAPACITY,
                self.buffer@.len() <= old(self).buffer@.len(),
                self.buffer@ == old(self).buffer@.skip(
                    old(self).buffer@.len() - self.buffer@.len(),
                ),
                old(self).buffer@.len() >= QUEUE_CAPACITY ==> self.buffer@.len()
                    >= QUEUE_CAPACITY - 1,
                old(self).buffer@.len() < QUEUE_CAPACITY ==> self.buffer@ == old(self).buffer@,
            decreases self.buffer@.len(),
        {
            let ghost before = self.buffer@;
            let _ = self.buffer.remove(0);
            proof {
                assert(self.buffer@ =~= before.skip(1));
                assert(self.buffer@ =~= old(self).buffer@.skip(
                    old(self).buffer@.len() - self.buffer@.len(),
                ));
            }
        }
        let ghost kept = self.buffer@;
        self.buffer.push(frame);
        proof {
            assert(self.buffer@ == kept.push(frame));
            if old(self).buffer@.len() >= QUEUE_CAPACITY {
                assert(kept.len() == QUEUE_CAPACITY - 1);
                assert(final(self)@ =~= queue_push_model(old(self)@, frame@));
            } else {
                assert(kept == old(self).buffer@);
                assert(final(self)@ =~= queue_push_model(old(self)@, frame@));
            }
        }
    }

    /// The frame whose timestamp is nearest `timestamp_ms`, within
    /// `tolerance_ms`, cloned and not consumed; among equally near frames,
    /// the oldest. `None` when no frame is close enough.
    pub fn peek_nearest(&self, timestamp_ms: i64, tolerance_ms: i64) -> (r: Option<RenderedFrame>)
        requires
            self.valid(),
            tolerance_ms >= 0,
            -0x4000_0000_0000_0000 < timestamp_ms < 0x4000_0000_0000_0000,
            forall|k: int|
                0 <= k < self@.len() ==> -0x4000_0000_0000_0000 < (
                #[trigger] self@[k]).timestamp_ms < 0x4000_0000_0000_0000,
        ensures
            match r {
                Some(f) => exists|i: int|
                    {
                        &&& 0 <= i < self@.len()
                        &&& f@ == self@[i]
                        &&& abs_diff((#[trigger] self@[i]).timestamp_ms as int, timestamp_ms as int)
                            <= tolerance_ms
                        &&& forall|j: int|
                            0 <= j < self@.len() && j != i ==> abs_diff(
                                (#[trigger] self@[j]).timestamp_ms as int,
                                timestamp_ms as int,
                            ) >= abs_diff(self@[i].timestamp_ms as int, timestamp_ms as int)
                        &&& forall|j: int|
                            0 <= j < i ==> abs_diff(
                                (#[trigger] self@[j]).timestamp_ms as int,
                                timestamp_ms as int,
                            ) > abs_diff(self@[i].timestamp_ms as int, timestamp_ms as int)
                    },
                None => forall|i: int|
                    0 <= i < self@.len() ==> abs_diff(
                        (#[trigger] self@[i]).timestamp_ms as int,
                        timestamp_ms as int,
                    ) > tolerance_ms,
            },
    {
        let mut best: Option<usize> = None;
        let mut best_diff: i64 = 0;
        let mut i: usize = 0;
        while i < self.buffer.len()
            invariant
                self.valid(),
                tolerance_ms >= 0,
                i <= self@.len(),
                -0x4000_0000_0000_0000 < timestamp_ms < 0x4000_0000_0000_0000,
                forall|k: int|
                    0 <= k < self@.len() ==> -0x4000_0000_0000_0000 < (
                    #[trigger] self@[k]).timestamp_ms < 0x4000_0000_0000_0000,
                match best {
                    Some(b) => {
                        &&& 0 <= b < i
                        &&& best_diff == abs_diff(self@[b as int].timestamp_ms as int, timestamp_ms as int)
                        &&& best_diff <= tolerance_ms
                        &&& forall|j: int|
                            0 <= j < i && j != b ==> abs_diff(
                                (#[trigger] self@[j]).timestamp_ms as int,
                                timestamp_ms as int,
                            ) >= best_diff
                        &&& forall|j: int|
                            0 <= j < b ==> abs_diff(
                                (#[trigger] self@[j]).timestamp_ms as int,
                                timestamp_ms as int,
                            ) > best_diff
                    },
                    None => forall|j: int|
                        0 <= j < i ==> abs_diff(
                            (#[trigger] self@[j]).timestamp_ms as int,
                            timestamp_ms as int,
                        ) > tolerance_ms,
                },
            decreases self@.len() - i,
        {
            let ts = self.buffer[i].timestamp_ms;
            proof {
                assert(self@[i as int] == self.buffer@[i as int]@);
                assert(-0x4000_0000_0000_0000 < self@[i as int].timestamp_ms
                    < 0x4000_0000_0000_0000);
            }
            let diff: i64 = if ts >= timestamp_ms {
                ts - timestamp_ms
            } else {
                timestamp_ms - ts
            };
            if diff <= tolerance_ms {
                match best {
                    Some(_) => {
                        if diff < best_diff {
                            best = Some(i);
                            best_diff = diff;
                        }
                    },
                    None => {
                        best = Some(i);
                        best_diff = diff;
                    },
                }
            }
            i = i + 1;
        }
        match best {
            Some(b) => Some(self.buffer[b].duplicate()),
            None => None,
        }
    }

    /// Remove and return the oldest frame.
    pub fn pop(&mut self) -> (r: Option<RenderedFrame>)
        requires
            old(self).valid(),
        ensures
            final(self).valid(),
            old(self)@.len() == 0 ==> r is None && final(self)@ == old(self)@,
            old(self)@.len() > 0 ==> {
                &&& match r {
                    Some(f) => f@ == old(self)@[0],
                    None => false,
                }
                &&& final(self)@ == old(self)@.skip(1)
            },
    {
        if self.buffer.len() == 0 {
            return None;
        }
        let f = self.buffer.remove(0);
        proof {
            assert(final(self)@ =~= old(self)@.skip(1));
        }
        Some(f)
    }

    pub fn clear(&mut self)
        requires
            old(self).valid(),
        ensures
            final(self).valid(),
            final(self)@.len() == 0,
    {
        self.buffer.clear();
    }

    pub fn len(&self) -> (r: usize)
        ensures
            r == self@.len(),
    {
        self.buffer.len()
    }
}

/// Distance between two timestamps.
pub open spec fn abs_diff(a: int, b: int) -> int {
    if a >= b {
        a - b
    } else {
        b - a
    }
}

} // verus!
