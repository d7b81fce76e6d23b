//! The audio decode core: 48 kHz stereo sample accounting over arbitrary
//! time ranges. Samples decoded past a requested count are carried into
//! the next call (chunk boundaries never lose samples), short ranges are
//! padded with silence, and a non-sequential request discards the carry.
//! Sample values pass through as opaque 32-bit patterns; producing them is
//! the codec's work, outside this state.

use vstd::prelude::*;
use crate::clip::MAX_TIME_MS;

verus! {

/// Output sample rate fixed by contract with every upstream component.
pub const OUTPUT_SAMPLE_RATE: u32 = 48000;

/// Output channel count (stereo, interleaved).
pub const OUTPUT_CHANNELS: u32 = 2;

/// Samples per channel covering a duration in microseconds at 48 kHz,
/// rounded to nearest.
pub open spec fn spec_samples_per_channel(duration_us: int) -> int {
    (duration_us * 48 + 500) / 1000
}

/// Interleaved stereo sample count covering a duration in microseconds.
pub open spec fn spec_samples_for(duration_us: int) -> int {
    2 * spec_samples_per_channel(duration_us)
}

/// Upper bound on a chunk duration handed to the decoder (µs): 40 s, far
/// above the 100 ms fill chunks and one-frame export chunks in use.
pub const MAX_CHUNK_US: u64 = 40_000_000;

/// Interleaved stereo sample count covering a duration in microseconds.
pub fn samples_for_duration(duration_us: u64) -> (r: usize)
    requires
        duration_us <= MAX_CHUNK_US,
    ensures
        r == spec_samples_for(duration_us as int),
        r <= 4_000_000,
{
    let per_channel: u64 = (duration_us * 48 + 500) / 1000;
    proof {
        assert((duration_us as int) * 48 + 500 <= 1_920_000_500) by (nonlinear_arith)
            requires
                duration_us <= 40_000_000,
        ;
    }
    (2 * per_channel) as usize
}

/// How much of a decoded source frame to use after a seek.
#[derive(Debug, Clone, Copy, PartialEq, Eq, Structural)]
pub enum SkipResult {
    /// The whole frame lies before the target: drop it unresampled.
    SkipEntire,
    /// The frame straddles the target: drop this many leading output
    /// samples.
    Partial(usize),
    /// The frame is at or past the target: use all of it.
    NoSkip,
}

/// The audio decode accounting state for one open stream.
pub struct AudioDecoder {
    pub sample_rate: u32,
    pub channels: u32,
    pub duration_ms: i64,
    /// Where the next sequential request is expected to start.
    pub current_pos_ms: i64,
    pub time_base_num: i32,
    pub time_base_den: i32,
    pub input_sample_rate: u32,
    /// Samples decoded past the last requested count, consumed first by the
    /// next call; 32-bit sample patterns.
    pub leftover_samples: Vec<u32>,
}

impl AudioDecoder {
    /// Well-formedness: the fixed output format and sane stream numbers.
    pub open spec fn valid(self) -> bool {
        &&& self.sample_rate == OUTPUT_SAMPLE_RATE
        &&& self.channels == OUTPUT_CHANNELS
        &&& 0 <= self.duration_ms <= MAX_TIME_MS
        &&& 0 <= self.current_pos_ms <= 2 * MAX_TIME_MS
        &&& self.time_base_num > 0
        &&& self.time_base_den > 0
    }

    pub fn new(duration_ms: i64, time_base_num: i32, time_base_den: i32, input_sample_rate: u32)
        -> (d: AudioDecoder)
        requires
            0 <= duration_ms <= MAX_TIME_MS,
            time_base_num > 0,
            time_base_den > 0,
        ensures
            d.valid(),
            d.sample_rate == OUTPUT_SAMPLE_RATE,
            d.channels == OUTPUT_CHANNELS,
            d.duration_ms == duration_ms,
            d.current_pos_ms == 0,
            d.time_base_num == time_base_num,
            d.time_base_den == time_base_den,
            d.input_sample_rate == input_sample_rate,
            d.leftover_samples@.len() == 0,
    {
        AudioDecoder {
            sample_rate: OUTPUT_SAMPLE_RATE,
            channels: OUTPUT_CHANNELS,
            duration_ms,
            current_pos_ms: 0,
            time_base_num,
            time_base_den,
            input_sample_rate,
            leftover_samples: Vec::new(),
        }
    }

    pub fn sample_rate(&self) -> (r: u32)
        ensures
            r == self.sample_rate,
    {
        self.sample_rate
    }

    pub fn channels(&self) -> (r: u32)
        ensures
            r == self.channels,
    {
        self.channels
    }

    pub fn duration_ms(&self) -> (r: i64)
        ensures
            r == self.duration_ms,
    {
        self.duration_ms
    }

    /// A stream presentation timestamp in milliseconds, under the stream's
    /// time base, clamped into the representable range.
    pub fn pts_to_ms(&self, pts: i64) -> (r: i64)
        requires
            self.valid(),
        ensures
            r == crate::decoder::clamp_time(
                pts * self.time_base_num * 1000 / (self.time_base_den as int),
            ),
    {
        if pts <= 0 {
            proof {
                let p = pts as int;
                let num = self.time_base_num as int;
                let den = self.time_base_den as int;
                assert(p * num * 1000 <= 0) by (nonlinear_arith)
                    requires
                        p <= 0,
                        num > 0,
                ;
                assert(p * num * 1000 / den <= 0) by (nonlinear_arith)
                    requires
                        p * num * 1000 <= 0,
                        den > 0,
                ;
            }
            return 0;
        }
        proof {
            let p = pts as int;
            let num = self.time_base_num as int;
            assert(0 < p * num * 1000 < 0x7FFF_FFFF_FFFF_FFFF_FFFF_FFFF_FFFF_FFFF)
                by (nonlinear_arith)
                requires
                    0 < p <= 0x7FFF_FFFF_FFFF_FFFF,
                    0 < num <= 0x7FFF_FFFF,
            ;
        }
        let wide: i128 = (pts as i128) * (self.time_base_num as i128) * 1000 / (
        self.time_base_den as i128);
        if wide > MAX_TIME_MS as i128 {
            MAX_TIME_MS
        } else {
            wide as i64
        }
    }

    /// After a seek, decide how much of a decoded frame to use: a frame
    /// wholly before the target is dropped, one straddling it loses the
    /// leading samples up to the target (at the output rate, both
    /// channels), one at or past it is used fully. A frame without a
    /// presentation time ends the skipping conservatively.
    pub fn check_skip(&self, pts: Option<i64>, frame_samples: usize, target_ms: i64) -> (r:
        SkipResult)
        requires
            self.valid(),
            0 <= target_ms <= MAX_TIME_MS,
            frame_samples <= 1_000_000_000,
        ensures
            match pts {
                None => r == SkipResult::NoSkip,
                Some(p) => {
                    let frame_ms = crate::decoder::clamp_time(
                        p * self.time_base_num * 1000 / (self.time_base_den as int),
                    );
                    let frame_dur = if self.input_sample_rate > 0 {
                        frame_samples * 1000 / (self.input_sample_rate as int)
                    } else {
                        0
                    };
                    if frame_ms + frame_dur <= target_ms {
                        r == SkipResult::SkipEntire
                    } else if frame_ms < target_ms {
                        r == SkipResult::Partial(
                            (((target_ms - frame_ms) * 48000 * 2 / 1000) as usize),
                        )
                    } else {
                        r == SkipResult::NoSkip
                    }
                },
            },
    {
        let p = match pts {
            Some(p) => p,
            None => {
                return SkipResult::NoSkip;
            },
        };
        let frame_ms = self.pts_to_ms(p);
        let frame_dur_ms: i64 = if self.input_sample_rate > 0 {
            ((frame_samples as i64) * 1000) / (self.input_sample_rate as i64)
        } else {
            0
        };
        proof {
            assert((frame_samples as int) * 1000 <= 1_000_000_000_000int) by (nonlinear_arith)
                requires
                    0 <= frame_samples <= 1_000_000_000,
            ;
        }
        if frame_ms + frame_dur_ms <= target_ms {
            SkipResult::SkipEntire
        } else if frame_ms < target_ms {
            let skip_ms = target_ms - frame_ms;
            let skip_count: i64 = skip_ms * 48000 * 2 / 1000;
            proof {
                assert(0 <= skip_ms * 48000 * 2 / 1000 <= MAX_TIME_MS * 96000)
                    by (nonlinear_arith)
                    requires
                        0 < skip_ms <= MAX_TIME_MS,
                ;
            }
            SkipResult::Partial(skip_count as usize)
        } else {
            SkipResult::NoSkip
        }
    }

    /// Whether a request is non-sequential (backwards, or more than a
    /// second ahead) and so needs a container seek.
    pub fn needs_seek(&self, start_ms: i64) -> (r: bool)
        requires
            self.valid(),
            0 <= start_ms <= MAX_TIME_MS,
        ensures
            r == (start_ms < self.current_pos_ms || start_ms > self.current_pos_ms + 1000),
    {
        start_ms < self.current_pos_ms || start_ms > self.current_pos_ms + 1000
    }

    /// A seek lands at the target and discards the carried samples: they
    /// belong to the old position.
    pub fn on_seek(&mut self, timestamp_ms: i64)
        requires
            old(self).valid(),
            0 <= timestamp_ms <= MAX_TIME_MS,
        ensures
            final(self).valid(),
            final(self).leftover_samples@.len() == 0,
            final(self).current_pos_ms == timestamp_ms,
            final(self).duration_ms == old(self).duration_ms,
            final(self).time_base_num == old(self).time_base_num,
            final(self).time_base_den == old(self).time_base_den,
            final(self).input_sample_rate == old(self).input_sample_rate,
            final(self).sample_rate == old(self).sample_rate,
            final(self).channels == old(self).channels,
    {
        self.leftover_samples.clear();
        self.current_pos_ms = timestamp_ms;
    }

    /// Assemble the output of one range request from the carried samples
    /// and the newly decoded ones: exactly the requested count comes out,
    /// a surplus is carried to the next call, and a shortfall (end of
    /// stream) is padded with silence. No sample is lost at a chunk
    /// boundary: output plus the new carry is exactly carry plus decoded.
    pub fn finish_range(&mut self, start_ms: i64, duration_us: u64, decoded: Vec<u32>) -> (out: Vec<
        u32,
    >)
        requires
            old(self).valid(),
            0 <= start_ms <= MAX_TIME_MS,
            duration_us <= MAX_CHUNK_US,
            old(self).leftover_samples@.len() + decoded@.len() <= usize::MAX,
        ensures
            final(self).valid(),
            out@.len() == spec_samples_for(duration_us as int),
            ({
                let combined = old(self).leftover_samples@ + decoded@;
                let need = spec_samples_for(duration_us as int);
                if combined.len() >= need {
                    out@ == combined.take(need) && final(self).leftover_samples@ == combined.skip(
                        need,
                    )
                } else {
                    out@ == combined + Seq::new((need - combined.len()) as nat, |i: int| 0u32)
                        && final(self).leftover_samples@.len() == 0
                }
            }),
            final(self).current_pos_ms == start_ms + (duration_us as int + 999) / 1000,
            final(self).duration_ms == old(self).duration_ms,
            final(self).time_base_num == old(self).time_base_num,
            final(self).time_base_den == old(self).time_base_den,
            final(self).input_sample_rate == old(self).input_sample_rate,
    {
        let need = samples_for_duration(duration_us);
        let ghost combined = self.leftover_samples@ + decoded@;
        let mut out: Vec<u32> = Vec::new();
        let lo_len = self.leftover_samples.len();
        let mut i: usize = 0;
        // Consume the carried samples first.
        while i < lo_len && i < need
            invariant
                i <= lo_len,
                i <= need,
                lo_len == self.leftover_samples@.len(),
                self == old(self),
                out@.len() == i,
                forall|j: int| 0 <= j < i ==> out@[j] == old(self).leftover_samples@[j],
            decreases need - i,
        {
            out.push(self.leftover_samples[i]);
            i = i + 1;
        }
        // Then the newly decoded ones.
        let mut k: usize = 0;
        while k < decoded.len() && i + k < need
            invariant
                i <= lo_len,
                lo_len == self.leftover_samples@.len(),
                self == old(self),
                k <= decoded@.len(),
                i + k <= need,
                i == lo_len || i == need,
                out@.len() == i + k,
                forall|j: int| 0 <= j < i ==> out@[j] == old(self).leftover_samples@[j],
                forall|j: int| 0 <= j < k ==> out@[i + j] == decoded@[j],
            decreases need - i - k,
        {
            out.push(decoded[k]);
            k = k + 1;
        }
        // Surplus becomes the new carry; a shortfall pads with silence.
        let mut carry: Vec<u32> = Vec::new();
        if out.len() == need {
            // Remaining carried samples beyond what was consumed.
            let mut a: usize = i;
            while a < lo_len
                invariant
                    i <= a <= lo_len,
                    lo_len == self.leftover_samples@.len(),
                    self == old(self),
                    carry@.len() == a - i,
                    forall|j: int|
                        0 <= j < a - i ==> carry@[j] == old(self).leftover_samples@[i + j],
                decreases lo_len - a,
            {
                carry.push(self.leftover_samples[a]);
                a = a + 1;
            }
            // Remaining decoded samples beyond what was consumed.
            let mut b: usize = k;
            while b < decoded.len()
                invariant
                    i <= lo_len,
                    lo_len == self.leftover_samples@.len(),
                    self == old(self),
                    k <= b <= decoded@.len(),
                    carry@.len() == (lo_len - i) + (b - k),
                    forall|j: int|
                        0 <= j < lo_len - i ==> carry@[j] == old(self).leftover_samples@[i + j],
                    forall|j: int|
                        lo_len - i <= j < carry@.len() ==> #[trigger] carry@[j] == decoded@[j - (
                        lo_len - i) + k],
                decreases decoded@.len() - b,
            {
                carry.push(decoded[b]);
                b = b + 1;
            }
            proof {
                assert(out@ =~= combined.take(need as int));
                assert(carry@ =~= combined.skip(need as int));
            }
        } else {
            let ghost produced = out@.len() as int;
            while out.len() < need
                invariant
                    out@.len() >= produced,
                    out@.len() <= need,
                    self == old(self),
                    out@.take(produced) == out@.take(produced),
                    forall|j: int| 0 <= j < produced ==> out@[j] == combined[j],
                    produced == combined.len(),
                    forall|j: int| produced <= j < out@.len() ==> out@[j] == 0u32,
                decreases need - out@.len(),
            {
                out.push(0u32);
            }
            proof {
                assert(out@ =~= combined + Seq::new((need - combined.len()) as nat, |i: int| 0u32));
            }
        }
        self.leftover_samples = carry;
        let dur_ceil_ms: i64 = ((duration_us + 999) / 1000) as i64;
        self.current_pos_ms = start_ms + dur_ceil_ms;
        proof {
            assert(final(self).current_pos_ms <= 2 * MAX_TIME_MS);
        }
        out
    }
}

/// Sample-count accounting across chunk boundaries: any two consecutive
/// chunks account for the same samples as one chunk of their combined
/// duration, up to one sample per channel of rounding per boundary.
pub proof fn lemma_sample_count_additive(a_us: int, b_us: int)
    requires
        a_us >= 0,
        b_us >= 0,
    ensures
        spec_samples_for(a_us) + spec_samples_for(b_us) - spec_samples_for(a_us + b_us) <= 2,
        spec_samples_for(a_us + b_us) - (spec_samples_for(a_us) + spec_samples_for(b_us)) <= 2,
{
    let x = a_us * 48 + 500;
    let y = b_us * 48 + 500;
    let z = (a_us + b_us) * 48 + 500;
    vstd::arithmetic::div_mod::lemma_fundamental_div_mod(x, 1000);
    vstd::arithmetic::div_mod::lemma_fundamental_div_mod(y, 1000);
    vstd::arithmetic::div_mod::lemma_fundamental_div_mod(z, 1000);
    vstd::arithmetic::div_mod::lemma_mod_bound(x, 1000);
    vstd::arithmetic::div_mod::lemma_mod_bound(y, 1000);
    vstd::arithmetic::div_mod::lemma_mod_bound(z, 1000);
    assert(z == x + y - 500) by (nonlinear_arith)
        requires
            x == a_us * 48 + 500,
            y == b_us * 48 + 500,
            z == (a_us + b_us) * 48 + 500,
    ;
    let q1 = x / 1000;
    let q2 = y / 1000;
    let q3 = z / 1000;
    assert(x == 1000 * q1 + x % 1000);
    assert(y == 1000 * q2 + y % 1000);
    assert(z == 1000 * q3 + z % 1000);
    assert(1000 * (q1 + q2 - q3) == 500 + z % 1000 - x % 1000 - y % 1000) by (nonlinear_arith)
        requires
            x == 1000 * q1 + x % 1000,
            y == 1000 * q2 + y % 1000,
            z == 1000 * q3 + z % 1000,
            z == x + y - 500,
    ;
    assert(-1 <= q1 + q2 - q3 <= 1) by (nonlinear_arith)
        requires
            1000 * (q1 + q2 - q3) == 500 + z % 1000 - x % 1000 - y % 1000,
            0 <= x % 1000 < 1000,
            0 <= y % 1000 < 1000,
            0 <= z % 1000 < 1000,
    ;
}

/// Conservation at a chunk boundary: what a range request hands out plus
/// what it carries forward is exactly what it was fed.
pub proof fn lemma_no_samples_lost(combined: Seq<u32>, need: int)
    requires
        0 <= need <= combined.len(),
    ensures
        combined.take(need) + combined.skip(need) == combined,
{
    assert(combined.take(need) + combined.skip(need) =~= combined);
}

} // verus!
