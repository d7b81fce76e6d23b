//! The export core: the job state the host polls (progress, cancel,
//! finished, error), validation of the configuration, the frame schedule
//! with its monotone presentation timestamps, the progress formula, and
//! the sample framing the AAC encoder consumes. The muxer and the export
//! thread live outside and drive this state.

use vstd::prelude::*;
use crate::clip::MAX_TIME_MS;

verus! {

/// An export request: output file, target size, frame rate (thousandths of
/// a frame per second), and quality factor.
pub struct ExportConfig {
    pub output_path: String,
    pub width: u32,
    pub height: u32,
    pub fps_millis: u32,
    pub crf: u32,
}

/// The state of one export job as the host sees it.
pub struct ExportJob {
    /// 0 to 99 while running; 100 only once the trailer is written.
    pub progress: u32,
    pub cancelled: bool,
    pub finished: bool,
    /// The failure message, when the job failed.
    pub error: Option<String>,
}

impl ExportJob {
    /// Well-formedness: the progress stays a percentage.
    pub open spec fn valid(self) -> bool {
        self.progress <= 100
    }

    pub fn new() -> (j: ExportJob)
        ensures
            j.valid(),
            j.progress == 0,
            !j.cancelled,
            !j.finished,
            j.error is None,
    {
        ExportJob { progress: 0, cancelled: false, finished: false, error: None }
    }

    /// The completed share, 0 to 100.
    pub fn get_progress(&self) -> (r: u32)
        ensures
            r == self.progress,
    {
        self.progress
    }

    /// Ask the job to stop; the export thread checks once per frame.
    pub fn cancel(&mut self)
        requires
            old(self).valid(),
        ensures
            final(self).valid(),
            final(self).cancelled,
            final(self).progress == old(self).progress,
            final(self).finished == old(self).finished,
            final(self).error == old(self).error,
    {
        self.cancelled = true;
    }

    pub fn is_finished(&self) -> (r: bool)
        ensures
            r == self.finished,
    {
        self.finished
    }

    /// The failure message; `None` while running or on success.
    pub fn get_error(&self) -> (r: Option<String>)
        ensures
            match r {
                Some(e) => match self.error {
                    Some(e0) => e@ == e0@,
                    None => false,
                },
                None => self.error is None,
            },
    {
        match &self.error {
            Some(e) => Some(e.clone()),
            None => None,
        }
    }

    /// Progress written by the export thread; capped below 100 until the
    /// trailer is written.
    pub fn set_progress(&mut self, p: u32)
        requires
            old(self).valid(),
            p <= 100,
        ensures
            final(self).valid(),
            final(self).progress == p,
            final(self).cancelled == old(self).cancelled,
            final(self).finished == old(self).finished,
            final(self).error == old(self).error,
    {
        self.progress = p;
    }

    /// The job ended successfully: full progress, finished.
    pub fn mark_completed(&mut self)
        requires
            old(self).valid(),
        ensures
            final(self).valid(),
            final(self).progress == 100,
            final(self).finished,
            final(self).cancelled == old(self).cancelled,
            final(self).error == old(self).error,
    {
        self.progress = 100;
        self.finished = true;
    }

    /// The job ended in failure: the message is kept for the host.
    pub fn mark_failed(&mut self, message: String)
        requires
            old(self).valid(),
        ensures
            final(self).valid(),
            final(self).finished,
            match final(self).error {
                Some(e) => e@ == message@,
                None => false,
            },
            final(self).progress == old(self).progress,
            final(self).cancelled == old(self).cancelled,
    {
        self.error = Some(message);
        self.finished = true;
    }
}

/// Whether an export configuration is runnable against a timeline of the
/// given length: a positive duration, a positive frame rate, and an even
/// target size within bounds (YUV420P needs even dimensions).
pub open spec fn spec_config_acceptable(
    width: u32,
    height: u32,
    fps_millis: u32,
    duration_ms: int,
) -> bool {
    &&& duration_ms > 0
    &&& fps_millis > 0
    &&& 2 <= width <= 8192
    &&& 2 <= height <= 8192
    &&& width % 2 == 0
    &&& height % 2 == 0
}

/// Reject a configuration the pipeline cannot run; `Ok` exactly on
/// acceptable ones.
pub fn validate_config(config: &ExportConfig, duration_ms: i64) -> (r: Result<(), String>)
    ensures
        r is Ok <==> spec_config_acceptable(
            config.width,
            config.height,
            config.fps_millis,
            duration_ms as int,
        ),
{
    if duration_ms <= 0 {
        return Err(String::from_str("the timeline is empty"));
    }
    if config.fps_millis == 0 {
        return Err(String::from_str("the frame rate must be positive"));
    }
    if config.width < 2 || config.width > 8192 || config.width % 2 != 0 {
        return Err(String::from_str("unsupported output width"));
    }
    if config.height < 2 || config.height > 8192 || config.height % 2 != 0 {
        return Err(String::from_str("unsupported output height"));
    }
    Ok(())
}

/// The timeline time of output frame `index`: frames are spaced exactly
/// `1000 / fps` ms apart.
pub open spec fn spec_frame_timestamp_ms(index: int, fps_millis: u32) -> int {
    index * 1_000_000 / (fps_millis as int)
}

/// The timeline time of output frame `index`.
pub fn frame_timestamp_ms(index: i64, fps_millis: u32) -> (r: i64)
    requires
        0 <= index <= MAX_TIME_MS,
        fps_millis > 0,
    ensures
        r == spec_frame_timestamp_ms(index as int, fps_millis),
        r >= 0,
{
    proof {
        assert(0 <= index * 1_000_000 <= MAX_TIME_MS * 1_000_000) by (nonlinear_arith)
            requires
                0 <= index <= MAX_TIME_MS,
        ;
        assert(index * 1_000_000 / (fps_millis as int) <= index * 1_000_000) by (nonlinear_arith)
            requires
                index * 1_000_000 >= 0,
                fps_millis >= 1,
        ;
    }
    index * 1_000_000 / (fps_millis as i64)
}

/// The export loop renders frame `index` exactly when its timestamp still
/// lies inside the timeline.
pub fn more_frames(index: i64, fps_millis: u32, duration_ms: i64) -> (r: bool)
    requires
        0 <= index <= MAX_TIME_MS,
        fps_millis > 0,
    ensures
        r == (spec_frame_timestamp_ms(index as int, fps_millis) < duration_ms),
{
    frame_timestamp_ms(index, fps_millis) < duration_ms
}

/// Frame timestamps are strictly monotone in the frame index, and the
/// video presentation timestamp handed to the encoder is the index itself:
/// the encoded stream's timestamps increase one by one from zero.
pub proof fn lemma_frame_schedule_monotone(i: int, j: int, fps_millis: u32)
    requires
        0 <= i < j,
        0 < fps_millis <= 120_000,
    ensures
        spec_frame_timestamp_ms(i, fps_millis) <= spec_frame_timestamp_ms(j, fps_millis),
{
    assert(i * 1_000_000 <= j * 1_000_000) by (nonlinear_arith)
        requires
            i < j,
    ;
    assert(i * 1_000_000 / (fps_millis as int) <= j * 1_000_000 / (fps_millis as int))
        by (nonlinear_arith)
        requires
            i * 1_000_000 <= j * 1_000_000,
            fps_millis >= 1,
    ;
}

/// The progress reported after encoding frame `index` of `total`: its
/// completed share, held below 100 until the trailer is written.
pub fn export_progress(frame_index: i64, total_frames: i64) -> (r: u32)
    requires
        0 < total_frames <= 0x7FFF_FFFF,
        0 <= frame_index < total_frames,
    ensures
        r == (if (frame_index + 1) * 100 / (total_frames as int) < 99 {
            (frame_index + 1) * 100 / (total_frames as int)
        } else {
            99int
        }),
        r <= 99,
{
    proof {
        assert(0 < (frame_index + 1) * 100 <= total_frames * 100) by (nonlinear_arith)
            requires
                0 < frame_index + 1 <= total_frames,
        ;
        assert((frame_index + 1) * 100 / (total_frames as int) <= 100) by (nonlinear_arith)
            requires
                0 < (frame_index + 1) * 100 <= total_frames * 100,
                total_frames > 0,
        ;
        assert((frame_index + 1) * 100 / (total_frames as int) >= 0) by (nonlinear_arith)
            requires
                (frame_index + 1) * 100 > 0,
                total_frames > 0,
        ;
    }
    proof {
        assert((frame_index + 1) * 100 <= total_frames * 100) by (nonlinear_arith)
            requires
                0 < frame_index + 1 <= total_frames,
        ;
        assert(total_frames * 100 <= 0x7FFF_FFFF * 100) by (nonlinear_arith)
            requires
                total_frames <= 0x7FFF_FFFF,
        ;
    }
    let pct: i64 = (frame_index + 1) * 100 / total_frames;
    if pct < 99 {
        pct as u32
    } else {
        99
    }
}

/// How many frames an export of this length produces: the count of frame
/// indexes whose timestamp lies inside the timeline.
pub fn total_frames(duration_ms: i64, fps_millis: u32) -> (r: i64)
    requires
        0 < duration_ms <= MAX_TIME_MS,
        0 < fps_millis <= 120_000,
    ensures
        r == (duration_ms * fps_millis + 999_999) / 1_000_000,
        r >= 1,
{
    proof {
        assert(0 < duration_ms * fps_millis <= MAX_TIME_MS * 120_000) by (nonlinear_arith)
            requires
                0 < duration_ms <= MAX_TIME_MS,
                0 < fps_millis <= 120_000,
        ;
    }
    (duration_ms * (fps_millis as i64) + 999_999) / 1_000_000
}

/// Pull one complete AAC frame's worth of interleaved samples off the
/// front of the pending buffer; `None` (and no change) when fewer are
/// pending.
pub fn take_aac_frame(buffer: &mut Vec<u32>, samples_per_frame: usize) -> (r: Option<Vec<u32>>)
    requires
        samples_per_frame >= 1,
    ensures
        final(buffer)@.len() <= old(buffer)@.len(),
        old(buffer)@.len() >= samples_per_frame ==> match r {
            Some(f) => {
                &&& f@ == old(buffer)@.take(samples_per_frame as int)
                &&& final(buffer)@ == old(buffer)@.skip(samples_per_frame as int)
            },
            None => false,
        },
        old(buffer)@.len() < samples_per_frame ==> r is None && final(buffer)@ == old(buffer)@,
{
    if buffer.len() < samples_per_frame {
        return None;
    }
    let mut frame: Vec<u32> = Vec::new();
    let mut i: usize = 0;
    while i < samples_per_frame
        invariant
            samples_per_frame <= buffer@.len(),
            buffer@ == old(buffer)@,
            i <= samples_per_frame,
            frame@ == old(buffer)@.take(i as int),
        decreases samples_per_frame - i,
    {
        frame.push(buffer[i]);
        proof {
            assert(frame@ =~= old(buffer)@.take(i + 1));
        }
        i = i + 1;
    }
    let mut rest: Vec<u32> = Vec::new();
    let mut k: usize = samples_per_frame;
    let n = buffer.len();
    while k < n
        invariant
            samples_per_frame <= k <= n,
            n == buffer@.len(),
            buffer@ == old(buffer)@,
            rest@ == old(buffer)@.subrange(samples_per_frame as int, k as int),
        decreases n - k,
    {
        rest.push(buffer[k]);
        proof {
            assert(rest@ =~= old(buffer)@.subrange(samples_per_frame as int, k + 1));
        }
        k = k + 1;
    }
    *buffer = rest;
    proof {
        assert(final(buffer)@ =~= old(buffer)@.skip(samples_per_frame as int));
    }
    Some(frame)
}

/// Pad the trailing, incomplete AAC frame with silence so the encoder can
/// flush it; an empty buffer needs no final frame.
pub fn pad_final_aac_frame(buffer: &mut Vec<u32>, samples_per_frame: usize)
    requires
        samples_per_frame >= 1,
        old(buffer)@.len() < samples_per_frame,
    ensures
        old(buffer)@.len() == 0 ==> final(buffer)@ == old(buffer)@,
        old(buffer)@.len() > 0 ==> final(buffer)@ == old(buffer)@ + Seq::new(
            (samples_per_frame - old(buffer)@.len()) as nat,
            |i: int| 0u32,
        ),
{
    if buffer.len() == 0 {
        return ;
    }
    let ghost b0 = buffer@;
    while buffer.len() < samples_per_frame
        invariant
            b0.len() <= buffer@.len() <= samples_per_frame,
            buffer@ == b0 + Seq::new((buffer@.len() - b0.len()) as nat, |i: int| 0u32),
        decreases samples_per_frame - buffer@.len(),
    {
        buffer.push(0u32);
        proof {
            assert(buffer@ =~= b0 + Seq::new((buffer@.len() - b0.len()) as nat, |i: int| 0u32));
        }
    }
}

/// Split one interleaved stereo frame into a single channel's plane, as
/// the AAC encoder's planar layout needs.
pub fn deinterleave_channel(frame: &Vec<u32>, channels: usize, channel: usize) -> (r: Vec<u32>)
    requires
        channels >= 1,
        channel < channels,
        frame@.len() as int % (channels as int) == 0,
    ensures
        r@.len() == frame@.len() as int / (channels as int),
        forall|i: int|
            0 <= i < r@.len() ==> #[trigger] r@[i] == frame@[i * channels + channel],
{
    let flen = frame.len();
    let per_channel = flen / channels;
    proof {
        vstd::arithmetic::div_mod::lemma_fundamental_div_mod(frame@.len() as int, channels as int);
        assert((channels as int) * (frame@.len() as int / (channels as int)) == (frame@.len()
            as int / (channels as int)) * (channels as int)) by (nonlinear_arith);
    }
    let mut out: Vec<u32> = Vec::new();
    let mut i: usize = 0;
    while i < per_channel
        invariant
            channels >= 1,
            channel < channels,
            flen == frame@.len(),
            per_channel == frame@.len() as int / (channels as int),
            (per_channel as int) * (channels as int) == frame@.len(),
            i <= per_channel,
            out@.len() == i,
            forall|j: int|
                0 <= j < i ==> #[trigger] out@[j] == frame@[j * channels + channel],
        decreases per_channel - i,
    {
        proof {
            assert((i as int) * channels + channel < (per_channel as int) * (channels as int))
                by (nonlinear_arith)
                requires
                    0 <= i < per_channel,
                    0 <= channel < channels,
            ;
            assert((i as int) * channels >= 0) by (nonlinear_arith)
                requires
                    i >= 0,
                    channels >= 0,
            ;
            assert((i as int) * channels + channel < frame@.len());
        }
        out.push(frame[i * channels + channel]);
        i = i + 1;
    }
    out
}

} // verus!
