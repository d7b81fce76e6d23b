//! Real-time audio playback core: the producer/consumer ring buffer of
//! samples, the never-blocking output callback's behaviour, and the fill
//! thread's decisions. The audio device and the threads live outside; they
//! drive these functions.

use vstd::prelude::*;

verus! {

/// Ring capacity: one second of 48 kHz stereo samples.
pub const BUFFER_CAPACITY: usize = 96000;

/// Fill-thread decode chunk length in microseconds (100 ms).
pub const DECODE_CHUNK_US: u64 = 100_000;

/// The fill thread tops the buffer up whenever it is at most half full.
pub const FILL_THRESHOLD: usize = 48000;

/// Chunks decoded before the stream is unpaused (3 x 100 ms).
pub const PREFILL_CHUNKS: usize = 3;

/// The ring contents after pushing `d` onto `s`: the last
/// `BUFFER_CAPACITY` samples of `s + d` — overproduction drops the oldest.
pub open spec fn ring_push_model(s: Seq<u32>, d: Seq<u32>) -> Seq<u32> {
    let total = s + d;
    if total.len() > BUFFER_CAPACITY {
        total.skip(total.len() - BUFFER_CAPACITY)
    } else {
        total
    }
}

/// A bounded FIFO of interleaved stereo samples (32-bit patterns), oldest
/// first; a single producer pushes, the real-time callback drains.
pub struct AudioRingBuffer {
    pub samples: Vec<u32>,
}

impl View for AudioRingBuffer {
    type V = Seq<u32>;

    open spec fn view(&self) -> Seq<u32> {
        self.samples@
    }
}

impl AudioRingBuffer {
    /// Well-formedness: never more than one second of audio.
    pub open spec fn valid(self) -> bool {
        self.samples@.len() <= BUFFER_CAPACITY
    }

    pub fn new() -> (b: AudioRingBuffer)
        ensures
            b.valid(),
            b@.len() == 0,
    {
        AudioRingBuffer { samples: Vec::new() }
    }

    /// Append samples; when they exceed the free space, the oldest stored
    /// samples are dropped first, so the buffer always holds the most
    /// recent second.
    pub fn push(&mut self, data: &Vec<u32>)
        requires
            old(self).valid(),
        ensures
            final(self).valid(),
            final(self)@ == ring_push_model(old(self)@, data@),
    {
        let dlen = data.len();
        if dlen >= BUFFER_CAPACITY {
            self.samples.clear();
            let start = dlen - BUFFER_CAPACITY;
            let mut i: usize = start;
            while i < dlen
                invariant
                    start == dlen - BUFFER_CAPACITY,
                    dlen == data@.len(),
                    start <= i <= dlen,
                    self.samples@.len() == i - start,
                    forall|j: int|
                        0 <= j < i - start ==> #[trigger] self.samples@[j] == data@[start + j],
                decreases dlen - i,
            {
                self.samples.push(data[i]);
                i = i + 1;
            }
            proof {
                assert(self@ =~= ring_push_model(old(self)@, data@));
            }
        } else {
            let available = BUFFER_CAPACITY - self.samples.len();
            if dlen > available {
                let discard = dlen - available;
                let ghost s0 = self.samples@;
                let mut k: usize = 0;
                while k < discard
                    invariant
                        k <= discard,
                        discard <= s0.len(),
                        self.samples@ == s0.skip(k as int),
                    decreases discard - k,
                {
                    let ghost before = self.samples@;
                    let _ = self.samples.remove(0);
                    proof {
                        assert(self.samples@ =~= before.skip(1));
                        assert(self.samples@ =~= s0.skip(k + 1));
                    }
                    k = k + 1;
                }
            }
            let ghost kept = self.samples@;
            let mut i: usize = 0;
            while i < dlen
                invariant
                    dlen == data@.len(),
                    i <= dlen,
                    self.samples@.len() == kept.len() + i,
                    kept.len() + dlen <= BUFFER_CAPACITY,
                    self.samples@ == kept + data@.take(i as int),
                decreases dlen - i,
            {
                self.samples.push(data[i]);
                proof {
                    assert(self.samples@ =~= kept + data@.take(i + 1));
                }
                i = i + 1;
            }
            proof {
                assert(data@.take(dlen as int) =~= data@);
                assert(self@ =~= ring_push_model(old(self)@, data@));
            }
        }
    }

    /// Copy up to `output.len()` stored samples into `output` in order,
    /// drain them, and fill any remainder with silence (zero) rather than
    /// clicking on underrun.
    pub fn fill_output(&mut self, output: &mut Vec<u32>)
        requires
            old(self).valid(),
        ensures
            final(self).valid(),
            final(output)@.len() == old(output)@.len(),
            ({
                let k = if old(self)@.len() < old(output)@.len() {
                    old(self)@.len() as int
                } else {
                    old(output)@.len() as int
                };
                &&& final(output)@ == old(self)@.take(k) + Seq::new(
                    (old(output)@.len() - k) as nat,
                    |i: int| 0u32,
                )
                &&& final(self)@ == old(self)@.skip(k)
            }),
    {
        let n = output.len();
        let avail = self.samples.len();
        let k = if avail < n {
            avail
        } else {
            n
        };
        let mut i: usize = 0;
        while i < k
            invariant
                k <= n,
                k <= self.samples@.len(),
                self == old(self),
                n == output@.len(),
                i <= k,
                forall|j: int| 0 <= j < i ==> #[trigger] output@[j] == self.samples@[j],
                forall|j: int| i <= j < n ==> #[trigger] output@[j] == old(output)@[j],
            decreases k - i,
        {
            output.set(i, self.samples[i]);
            i = i + 1;
        }
        let mut z: usize = k;
        while z < n
            invariant
                k <= n,
                k <= self.samples@.len(),
                self == old(self),
                n == output@.len(),
                k <= z <= n,
                forall|j: int| 0 <= j < k ==> #[trigger] output@[j] == self.samples@[j],
                forall|j: int| k <= j < z ==> #[trigger] output@[j] == 0u32,
            decreases n - z,
        {
            output.set(z, 0u32);
            z = z + 1;
        }
        let ghost s0 = self.samples@;
        let mut d: usize = 0;
        while d < k
            invariant
                k <= s0.len(),
                d <= k,
                self.samples@ == s0.skip(d as int),
            decreases k - d,
        {
            let ghost before = self.samples@;
            let _ = self.samples.remove(0);
            proof {
                assert(self.samples@ =~= before.skip(1));
                assert(self.samples@ =~= s0.skip(d + 1));
            }
            d = d + 1;
        }
        proof {
            assert(final(output)@ =~= s0.take(k as int) + Seq::new(
                (n - k) as nat,
                |i: int| 0u32,
            ));
        }
    }

    pub fn len(&self) -> (r: usize)
        ensures
            r == self@.len(),
    {
        self.samples.len()
    }
}

/// The real-time output callback's whole behaviour: when playback is
/// stopped or the buffer lock was not acquired (contention), it writes
/// silence and touches nothing — it never waits; otherwise it drains
/// samples and pads with silence. The callback allocates nothing: it only
/// writes into the buffer handed to it.
pub fn callback_fill(playing: bool, acquired: bool, buffer: &mut AudioRingBuffer, output: &mut Vec<
    u32,
>)
    requires
        old(buffer).valid(),
    ensures
        final(buffer).valid(),
        final(output)@.len() == old(output)@.len(),
        !(playing && acquired) ==> {
            &&& final(buffer)@ == old(buffer)@
            &&& forall|i: int| 0 <= i < final(output)@.len() ==> #[trigger] final(output)@[i] == 0u32
        },
        playing && acquired ==> ({
            let k = if old(buffer)@.len() < old(output)@.len() {
                old(buffer)@.len() as int
            } else {
                old(output)@.len() as int
            };
            &&& final(output)@ == old(buffer)@.take(k) + Seq::new(
                (old(output)@.len() - k) as nat,
                |i: int| 0u32,
            )
            &&& final(buffer)@ == old(buffer)@.skip(k)
        }),
{
    if !playing || !acquired {
        let n = output.len();
        let mut i: usize = 0;
        while i < n
            invariant
                n == output@.len(),
                i <= n,
                forall|j: int| 0 <= j < i ==> #[trigger] output@[j] == 0u32,
            decreases n - i,
        {
            output.set(i, 0u32);
            i = i + 1;
        }
        return ;
    }
    buffer.fill_output(output);
}

/// Ring overflow: pushing more samples than the capacity admits leaves
/// exactly the last `BUFFER_CAPACITY` samples pushed.
pub proof fn lemma_ring_overflow(s: Seq<u32>, d: Seq<u32>)
    requires
        s.len() <= BUFFER_CAPACITY,
        s.len() + d.len() > BUFFER_CAPACITY,
    ensures
        ring_push_model(s, d).len() == BUFFER_CAPACITY,
        ring_push_model(s, d) == (s + d).skip(s.len() + d.len() - BUFFER_CAPACITY),
{
}

/// Pushes compose: two pushes leave the same contents as one push of the
/// concatenated data, so any run of pushes leaves the last capacity's
/// worth of everything pushed.
pub proof fn lemma_ring_push_compose(s: Seq<u32>, a: Seq<u32>, b: Seq<u32>)
    ensures
        ring_push_model(ring_push_model(s, a), b) == ring_push_model(s, a + b),
{
    let first = ring_push_model(s, a);
    assert((s + a) + b =~= s + (a + b));
    if (s + a).len() > BUFFER_CAPACITY {
        assert(first + b =~= (s + (a + b)).skip((s + a).len() - BUFFER_CAPACITY));
        if (first + b).len() > BUFFER_CAPACITY {
            assert(ring_push_model(first, b) =~= ring_push_model(s, a + b));
        } else {
            assert(ring_push_model(first, b) =~= ring_push_model(s, a + b));
        }
    } else {
        assert(first + b =~= s + (a + b));
        assert(ring_push_model(first, b) =~= ring_push_model(s, a + b));
    }
}

/// What the audio fill thread does next during the pre-fill phase: stop
/// when cancelled, retry shortly when the timeline lock is contended
/// (without advancing the chunk counter), and otherwise mix the next
/// 100 ms chunk.
#[derive(Debug, Clone, Copy, PartialEq, Eq, Structural)]
pub enum FillStep {
    Stop,
    SleepMs(u32),
    MixChunk,
}

/// Decision for one pre-fill iteration.
pub fn prefill_step(cancelled: bool, timeline_acquired: bool) -> (r: FillStep)
    ensures
        cancelled ==> r == FillStep::Stop,
        !cancelled && !timeline_acquired ==> r == FillStep::SleepMs(2),
        !cancelled && timeline_acquired ==> r == FillStep::MixChunk,
{
    if cancelled {
        FillStep::Stop
    } else if !timeline_acquired {
        FillStep::SleepMs(2)
    } else {
        FillStep::MixChunk
    }
}

/// Decision for one steady-state fill iteration: stop when cancelled,
/// idle while paused, back off while the buffer is above half full or the
/// timeline lock is contended, else mix the next chunk.
pub fn steady_fill_step(
    cancelled: bool,
    playing: bool,
    buffer_len: usize,
    timeline_acquired: bool,
) -> (r: FillStep)
    ensures
        cancelled ==> r == FillStep::Stop,
        !cancelled && !playing ==> r == FillStep::SleepMs(10),
        !cancelled && playing && buffer_len > FILL_THRESHOLD ==> r == FillStep::SleepMs(10),
        !cancelled && playing && buffer_len <= FILL_THRESHOLD && !timeline_acquired ==> r
            == FillStep::SleepMs(5),
        !cancelled && playing && buffer_len <= FILL_THRESHOLD && timeline_acquired ==> r
            == FillStep::MixChunk,
{
    if cancelled {
        FillStep::Stop
    } else if !playing {
        FillStep::SleepMs(10)
    } else if buffer_len > FILL_THRESHOLD {
        FillStep::SleepMs(10)
    } else if !timeline_acquired {
        FillStep::SleepMs(5)
    } else {
        FillStep::MixChunk
    }
}

} // verus!
