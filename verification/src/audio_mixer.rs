//! The audio mix plan: which clips sound in a requested range, what source
//! range each must be decoded over, and the effective gain (volume times
//! linear fades) each contributes with. Applying the gains and summing the
//! sample values is floating-point work done outside, per this plan.

use vstd::prelude::*;
use crate::audio_decoder::{spec_samples_for, samples_for_duration, MAX_CHUNK_US, OUTPUT_CHANNELS, OUTPUT_SAMPLE_RATE};
use crate::clip::{AudioClip, AudioClipView, MAX_TIME_MS};

verus! {

/// The linear fade factor of a clip at a timeline time, in per-mille:
/// attenuated inside the fade-in window (proportionally to the time since
/// the clip started) and inside the fade-out window (proportionally to the
/// time left), clamped to [0, 1000].
pub open spec fn spec_fade_volume(clip: AudioClipView, t: int) -> int {
    let clip_time = t - clip.start_time_ms;
    let f1: int = if clip.fade_in_ms > 0 && clip_time < clip.fade_in_ms {
        if clip_time <= 0 {
            0
        } else {
            1000 * clip_time / (clip.fade_in_ms as int)
        }
    } else {
        1000
    };
    let remaining = clip.duration_ms - clip_time;
    if clip.fade_out_ms > 0 && remaining < clip.fade_out_ms {
        if remaining <= 0 {
            0
        } else {
            f1 * remaining / (clip.fade_out_ms as int)
        }
    } else {
        f1
    }
}

/// The linear fade factor of a clip at a timeline time, in per-mille.
pub fn calc_fade_volume(clip: &AudioClip, timestamp_ms: i64) -> (r: u32)
    requires
        clip.valid(),
        -MAX_TIME_MS <= timestamp_ms <= 2 * MAX_TIME_MS,
    ensures
        r == spec_fade_volume(clip@, timestamp_ms as int),
        r <= 1000,
{
    let clip_time = timestamp_ms - clip.start_time_ms;
    let mut fade: i64 = 1000;
    if clip.fade_in_ms > 0 && clip_time < clip.fade_in_ms {
        if clip_time <= 0 {
            fade = 0;
        } else {
            fade = 1000 * clip_time / clip.fade_in_ms;
            proof {
                assert(0 <= 1000 * clip_time / (clip.fade_in_ms as int) < 1000) by (nonlinear_arith)
                    requires
                        0 < clip_time < clip.fade_in_ms,
                ;
            }
        }
    }
    let remaining = clip.duration_ms - clip_time;
    if clip.fade_out_ms > 0 && remaining < clip.fade_out_ms {
        if remaining <= 0 {
            fade = 0;
        } else {
            let f1 = fade;
            proof {
                assert(0 <= f1 * remaining <= 1000 * clip.fade_out_ms) by (nonlinear_arith)
                    requires
                        0 <= f1 <= 1000,
                        0 < remaining < clip.fade_out_ms,
                ;
                assert(0 <= f1 * remaining / (clip.fade_out_ms as int) <= f1) by (nonlinear_arith)
                    requires
                        0 <= f1 <= 1000,
                        0 < remaining < clip.fade_out_ms,
                ;
            }
            fade = f1 * remaining / clip.fade_out_ms;
        }
    }
    fade as u32
}

/// One clip's contribution to a mix chunk: decode this source range from
/// this file, scale each sample by `gain_permicro / 1_000_000`, and, at a
/// speed other than normal, resample by linear interpolation at fractional
/// steps of `speed_permille / 1000` (pitch follows speed by design).
pub struct MixEntry {
    pub file_path: String,
    pub source_start_ms: i64,
    pub source_duration_us: u64,
    /// Clip volume times fade, in millionths of unity.
    pub gain_permicro: u32,
    pub speed_permille: u32,
}

/// Ghost mirror of a `MixEntry`.
pub ghost struct MixEntryView {
    pub file_path: Seq<char>,
    pub source_start_ms: i64,
    pub source_duration_us: u64,
    pub gain_permicro: u32,
    pub speed_permille: u32,
}

impl View for MixEntry {
    type V = MixEntryView;

    open spec fn view(&self) -> MixEntryView {
        MixEntryView {
            file_path: self.file_path@,
            source_start_ms: self.source_start_ms,
            source_duration_us: self.source_duration_us,
            gain_permicro: self.gain_permicro,
            speed_permille: self.speed_permille,
        }
    }
}

/// Whether a clip sounds somewhere in `[t, t + dur_ms)`.
pub open spec fn spec_overlaps(clip: AudioClipView, t: int, dur_ms: int) -> bool {
    !(t >= clip.start_time_ms + clip.duration_ms || t + dur_ms <= clip.start_time_ms)
}

/// Division truncating toward zero, as the mix plan's source mapping uses.
pub open spec fn div_trunc(a: int, b: int) -> int {
    if a >= 0 {
        a / b
    } else {
        -((-a) / b)
    }
}

/// The entry a clip contributes to a chunk at `t` of `dur_us`
/// microseconds: the source range starts at
/// `trim_start + (t - clip.start) * speed` and spans `dur_us * speed`; the
/// gain is the clip volume scaled by its fade at `t`.
pub open spec fn spec_mix_entry(clip: AudioClipView, t: int, dur_us: int) -> MixEntryView {
    MixEntryView {
        file_path: clip.file_path,
        source_start_ms: (clip.trim_start_ms + div_trunc(
            (t - clip.start_time_ms) * clip.speed_permille,
            1000,
        )) as i64,
        source_duration_us: (dur_us * clip.speed_permille / 1000) as u64,
        gain_permicro: (clip.volume_permille * spec_fade_volume(clip, t)) as u32,
        speed_permille: clip.speed_permille,
    }
}

/// The abstract values of a sequence of mix entries.
pub open spec fn mix_views(s: Seq<MixEntry>) -> Seq<MixEntryView> {
    s.map_values(|e: MixEntry| e@)
}

/// The whole plan for a chunk: one entry per clip that sounds in it, in
/// the order the clips were given.
pub open spec fn spec_mix_plan(clips: Seq<AudioClipView>, t: int, dur_us: int) -> Seq<
    MixEntryView,
>
    decreases clips.len(),
{
    if clips.len() == 0 {
        Seq::empty()
    } else {
        spec_mix_plan(clips.drop_last(), t, dur_us) + (if spec_overlaps(
            clips.last(),
            t,
            dur_us / 1000,
        ) {
            seq![spec_mix_entry(clips.last(), t, dur_us)]
        } else {
            Seq::empty()
        })
    }
}

/// The mixing work for one chunk: for every given clip that sounds in
/// `[timestamp_ms, timestamp_ms + duration)`, the source range to decode
/// and the gain to apply. The chunk's output length is
/// `samples_for_duration(duration_us)` interleaved stereo samples
/// regardless of the plan.
pub fn mix_range_plan(clips: &Vec<AudioClip>, timestamp_ms: i64, duration_us: u64) -> (r: Vec<
    MixEntry,
>)
    requires
        forall|i: int| 0 <= i < clips@.len() ==> (#[trigger] clips@[i]).valid(),
        0 <= timestamp_ms <= MAX_TIME_MS,
        duration_us <= MAX_CHUNK_US,
    ensures
        mix_views(r@) == spec_mix_plan(
            clips@.map_values(|c: AudioClip| c@),
            timestamp_ms as int,
            duration_us as int,
        ),
{
    let ghost views = clips@.map_values(|c: AudioClip| c@);
    let dur_ms: i64 = (duration_us / 1000) as i64;
    let mut out: Vec<MixEntry> = Vec::new();
    let mut i: usize = 0;
    while i < clips.len()
        invariant
            forall|k: int| 0 <= k < clips@.len() ==> (#[trigger] clips@[k]).valid(),
            0 <= timestamp_ms <= MAX_TIME_MS,
            duration_us <= MAX_CHUNK_US,
            dur_ms == duration_us as int / 1000,
            views == clips@.map_values(|c: AudioClip| c@),
            i <= clips@.len(),
            mix_views(out@) == spec_mix_plan(
                views.take(i as int),
                timestamp_ms as int,
                duration_us as int,
            ),
        decreases clips@.len() - i,
    {
        proof {
            let p1 = views.take(i as int + 1);
            assert(p1.drop_last() =~= views.take(i as int));
            assert(p1.last() == views[i as int]);
            assert(views[i as int] == clips@[i as int]@);
        }
        let clip = &clips[i];
        let clip_end = clip.start_time_ms + clip.duration_ms;
        if !(timestamp_ms >= clip_end || timestamp_ms + dur_ms <= clip.start_time_ms) {
            let clip_offset = timestamp_ms - clip.start_time_ms;
            let scaled: i64 = if clip_offset >= 0 {
                proof {
                    assert(0 <= clip_offset * clip.speed_permille <= 2 * MAX_TIME_MS * 4000)
                        by (nonlinear_arith)
                        requires
                            0 <= clip_offset <= 2 * MAX_TIME_MS,
                            0 < clip.speed_permille <= 4000,
                    ;
                }
                clip_offset * (clip.speed_permille as i64) / 1000
            } else {
                proof {
                    assert(0 <= (-clip_offset) * clip.speed_permille <= 2 * MAX_TIME_MS * 4000)
                        by (nonlinear_arith)
                        requires
                            0 < -clip_offset <= 2 * MAX_TIME_MS,
                            0 < clip.speed_permille <= 4000,
                    ;
                }
                -((-clip_offset) * (clip.speed_permille as i64) / 1000)
            };
            let source_start_ms = clip.trim_start_ms + scaled;
            proof {
                assert(0 <= (duration_us as int) * (clip.speed_permille as int) <= MAX_CHUNK_US
                    * 4000) by (nonlinear_arith)
                    requires
                        0 <= duration_us <= MAX_CHUNK_US,
                        0 < clip.speed_permille <= 4000,
                ;
            }
            let source_duration_us: u64 = duration_us * (clip.speed_permille as u64) / 1000;
            let fade = calc_fade_volume(clip, timestamp_ms);
            proof {
                assert(clip.volume_permille * fade <= 4000 * 1000) by (nonlinear_arith)
                    requires
                        0 <= clip.volume_permille <= 4000,
                        0 <= fade <= 1000,
                ;
                assert(clip.volume_permille * fade >= 0) by (nonlinear_arith)
                    requires
                        clip.volume_permille >= 0,
                        fade >= 0,
                ;
            }
            let gain_permicro: u32 = clip.volume_permille * fade;
            proof {
                let off = timestamp_ms as int - clip.start_time_ms as int;
                let sp = clip.speed_permille as int;
                if off < 0 {
                    assert((-off) * sp == -(off * sp)) by (nonlinear_arith);
                }
                assert(scaled == div_trunc(off * sp, 1000));
            }
            let ghost out0 = out@;
            out.push(
                MixEntry {
                    file_path: clip.file_path.clone(),
                    source_start_ms,
                    source_duration_us,
                    gain_permicro,
                    speed_permille: clip.speed_permille,
                },
            );
            proof {
                assert(out@.last()@ == spec_mix_entry(
                    views[i as int],
                    timestamp_ms as int,
                    duration_us as int,
                ));
                assert(mix_views(out@) =~= mix_views(out0).push(out@.last()@));
                assert(mix_views(out@) =~= spec_mix_plan(
                    views.take(i as int + 1),
                    timestamp_ms as int,
                    duration_us as int,
                ));
            }
        } else {
            proof {
                assert(mix_views(out@) =~= spec_mix_plan(
                    views.take(i as int + 1),
                    timestamp_ms as int,
                    duration_us as int,
                ));
            }
        }
        i = i + 1;
    }
    proof {
        assert(views.take(views.len() as int) =~= views);
    }
    out
}

/// The mixer: a per-file decoder cache lives with the caller; the mixer's
/// own logic is the plan above and the fixed output format.
pub struct AudioMixer {
    pub sample_rate: u32,
    pub channels: u32,
}

impl AudioMixer {
    /// Well-formedness: the fixed output format.
    pub open spec fn valid(self) -> bool {
        self.sample_rate == OUTPUT_SAMPLE_RATE && self.channels == OUTPUT_CHANNELS
    }

    pub fn new() -> (m: AudioMixer)
        ensures
            m.valid(),
    {
        AudioMixer { sample_rate: OUTPUT_SAMPLE_RATE, channels: OUTPUT_CHANNELS }
    }

    pub fn sample_rate(&self) -> (r: u32)
        ensures
            r == self.sample_rate,
    {
        self.sample_rate
    }

    pub fn channels(&self) -> (r: u32)
        ensures
            r == self.channels,
    {
        self.channels
    }

    /// The number of interleaved samples one chunk of the given length
    /// mixes to.
    pub fn output_samples(&self, duration_us: u64) -> (r: usize)
        requires
            duration_us <= MAX_CHUNK_US,
        ensures
            r == spec_samples_for(duration_us as int),
    {
        samples_for_duration(duration_us)
    }
}

} // verus!
