//! Clips: time-placed references into media files, with trim, speed,
//! volume, fades and a transition tag.
//!
//! The timeline coordinate and the source-file coordinate are related by
//! `source = trim_start + (t - start) * speed`, with speed in per-mille.

use vstd::prelude::*;

verus! {

/// Upper bound on any timestamp or duration the engine handles (ms).
pub const MAX_TIME_MS: i64 = 1_000_000_000;

/// Slowest supported clip speed (0.25x), in per-mille.
pub const MIN_SPEED_PERMILLE: u32 = 250;

/// Fastest supported clip speed (4x), in per-mille.
pub const MAX_SPEED_PERMILLE: u32 = 4000;

/// Loudest supported clip volume (4x), in per-mille.
pub const MAX_VOLUME_PERMILLE: u32 = 4000;

/// Transition tag between two overlapping clips on one video track.
/// `NoTransition` is treated as a crossfade when the timeline places two
/// clips in overlap.
#[derive(Debug, Clone, Copy, PartialEq, Eq, Structural)]
pub enum TransitionType {
    NoTransition,
    Crossfade,
    FadeBlack,
    WipeLeft,
    WipeRight,
    WipeUp,
    WipeDown,
}

/// Ghost mirror of a `VideoClip`, with string fields abstracted to
/// character sequences; `clip@` is compared where clips are duplicated.
pub ghost struct VideoClipView {
    pub id: u64,
    pub file_path: Seq<char>,
    pub proxy_path: Option<Seq<char>>,
    pub start_time_ms: i64,
    pub duration_ms: i64,
    pub trim_start_ms: i64,
    pub trim_end_ms: i64,
    pub speed_permille: u32,
    pub volume_permille: u32,
    pub transition_type: TransitionType,
}

/// Ghost mirror of an `AudioClip`.
pub ghost struct AudioClipView {
    pub id: u64,
    pub file_path: Seq<char>,
    pub start_time_ms: i64,
    pub duration_ms: i64,
    pub trim_start_ms: i64,
    pub trim_end_ms: i64,
    pub speed_permille: u32,
    pub volume_permille: u32,
    pub fade_in_ms: i64,
    pub fade_out_ms: i64,
}

/// A video clip placed on the timeline at
/// `[start_time_ms, start_time_ms + duration_ms)`, reading the source file
/// from `trim_start_ms` at `speed_permille / 1000` times normal speed.
#[derive(Debug, Clone)]
pub struct VideoClip {
    pub id: u64,
    pub file_path: String,
    /// Optional low-resolution parallel encoding used only for preview.
    pub proxy_path: Option<String>,
    pub start_time_ms: i64,
    pub duration_ms: i64,
    pub trim_start_ms: i64,
    pub trim_end_ms: i64,
    /// Playback speed in per-mille (1000 = normal).
    pub speed_permille: u32,
    /// Volume of the clip's embedded audio in per-mille (1000 = unity).
    pub volume_permille: u32,
    pub transition_type: TransitionType,
}

/// An audio clip: same placement, trim, volume and speed as a video clip,
/// plus linear fade-in and fade-out windows.
#[derive(Debug, Clone)]
pub struct AudioClip {
    pub id: u64,
    pub file_path: String,
    pub start_time_ms: i64,
    pub duration_ms: i64,
    pub trim_start_ms: i64,
    pub trim_end_ms: i64,
    pub speed_permille: u32,
    pub volume_permille: u32,
    pub fade_in_ms: i64,
    pub fade_out_ms: i64,
}

impl View for VideoClip {
    type V = VideoClipView;

    open spec fn view(&self) -> VideoClipView {
        VideoClipView {
            id: self.id,
            file_path: self.file_path@,
            proxy_path: match self.proxy_path {
                Some(p) => Some(p@),
                None => None,
            },
            start_time_ms: self.start_time_ms,
            duration_ms: self.duration_ms,
            trim_start_ms: self.trim_start_ms,
            trim_end_ms: self.trim_end_ms,
            speed_permille: self.speed_permille,
            volume_permille: self.volume_permille,
            transition_type: self.transition_type,
        }
    }
}

impl View for AudioClip {
    type V = AudioClipView;

    open spec fn view(&self) -> AudioClipView {
        AudioClipView {
            id: self.id,
            file_path: self.file_path@,
            start_time_ms: self.start_time_ms,
            duration_ms: self.duration_ms,
            trim_start_ms: self.trim_start_ms,
            trim_end_ms: self.trim_end_ms,
            speed_permille: self.speed_permille,
            volume_permille: self.volume_permille,
            fade_in_ms: self.fade_in_ms,
            fade_out_ms: self.fade_out_ms,
        }
    }
}

impl VideoClip {
    /// Well-formedness: placement and trim lie in the supported time range,
    /// the duration is positive and speed and volume are within bounds.
    pub open spec fn valid(self) -> bool {
        &&& 0 <= self.start_time_ms <= MAX_TIME_MS
        &&& 0 < self.duration_ms <= MAX_TIME_MS
        &&& 0 <= self.trim_start_ms <= MAX_TIME_MS
        &&& 0 <= self.trim_end_ms <= MAX_TIME_MS
        &&& MIN_SPEED_PERMILLE <= self.speed_permille <= MAX_SPEED_PERMILLE
        &&& self.volume_permille <= MAX_VOLUME_PERMILLE
    }

    /// End of the clip's placement on the timeline (exclusive).
    pub open spec fn spec_end_time_ms(self) -> int {
        self.start_time_ms + self.duration_ms
    }

    /// Whether timeline time `t` falls inside the clip's placement.
    pub open spec fn spec_contains_time(self, t: int) -> bool {
        self.start_time_ms <= t < self.spec_end_time_ms()
    }

    /// The source-file time corresponding to timeline time `t`:
    /// `trim_start + (t - start) * speed`.
    pub open spec fn source_time_of(self, t: int) -> int {
        self.trim_start_ms + (t - self.start_time_ms) * self.speed_permille / 1000
    }

    pub fn new(
        id: u64,
        file_path: String,
        start_time_ms: i64,
        duration_ms: i64,
        proxy_path: Option<String>,
    ) -> (clip: VideoClip)
        requires
            0 <= start_time_ms <= MAX_TIME_MS,
            0 < duration_ms <= MAX_TIME_MS,
        ensures
            clip.valid(),
            clip.id == id,
            clip.file_path@ == file_path@,
            clip.proxy_path == proxy_path,
            clip.start_time_ms == start_time_ms,
            clip.duration_ms == duration_ms,
            clip.trim_start_ms == 0,
            clip.trim_end_ms == duration_ms,
            clip.speed_permille == 1000u32,
            clip.volume_permille == 1000u32,
            clip.transition_type == TransitionType::NoTransition,
    {
        VideoClip {
            id,
            file_path,
            proxy_path,
            start_time_ms,
            duration_ms,
            trim_start_ms: 0,
            trim_end_ms: duration_ms,
            speed_permille: 1000,
            volume_permille: 1000,
            transition_type: TransitionType::NoTransition,
        }
    }

    /// End of the clip's placement on the timeline (exclusive).
    pub fn end_time_ms(&self) -> (r: i64)
        requires
            self.valid(),
        ensures
            r == self.spec_end_time_ms(),
    {
        self.start_time_ms + self.duration_ms
    }

    /// Whether timeline time `t` falls inside the clip's placement.
    pub fn contains_time(&self, time_ms: i64) -> (r: bool)
        requires
            self.valid(),
        ensures
            r == self.spec_contains_time(time_ms as int),
    {
        self.start_time_ms <= time_ms && time_ms < self.start_time_ms + self.duration_ms
    }

    /// A copy whose abstract value equals this clip's; written out because
    /// a derived clone carries no contract.
    pub fn duplicate(&self) -> (r: VideoClip)
        ensures
            r@ == self@,
            r.valid() == self.valid(),
    {
        VideoClip {
            id: self.id,
            file_path: self.file_path.clone(),
            proxy_path: match &self.proxy_path {
                Some(p) => Some(p.clone()),
                None => None,
            },
            start_time_ms: self.start_time_ms,
            duration_ms: self.duration_ms,
            trim_start_ms: self.trim_start_ms,
            trim_end_ms: self.trim_end_ms,
            speed_permille: self.speed_permille,
            volume_permille: self.volume_permille,
            transition_type: self.transition_type,
        }
    }

    /// Map a timeline time inside the clip to the source-file time the
    /// decoder must be asked for; `None` outside the clip's placement.
    pub fn timeline_to_source_time(&self, timeline_ms: i64) -> (r: Option<i64>)
        requires
            self.valid(),
        ensures
            self.spec_contains_time(timeline_ms as int) ==> r == Some(
                self.source_time_of(timeline_ms as int) as i64,
            ),
            !self.spec_contains_time(timeline_ms as int) ==> r is None,
    {
        if self.contains_time(timeline_ms) {
            let offset: i64 = timeline_ms - self.start_time_ms;
            assert(0 <= offset * self.speed_permille <= MAX_TIME_MS * MAX_SPEED_PERMILLE)
                by (nonlinear_arith)
                requires
                    0 <= offset <= MAX_TIME_MS,
                    0 < self.speed_permille <= MAX_SPEED_PERMILLE,
            ;
            Some(self.trim_start_ms + offset * (self.speed_permille as i64) / 1000)
        } else {
            None
        }
    }
}

impl AudioClip {
    /// Well-formedness: like a video clip's, with fade windows in range.
    pub open spec fn valid(self) -> bool {
        &&& 0 <= self.start_time_ms <= MAX_TIME_MS
        &&& 0 < self.duration_ms <= MAX_TIME_MS
        &&& 0 <= self.trim_start_ms <= MAX_TIME_MS
        &&& 0 <= self.trim_end_ms <= MAX_TIME_MS
        &&& MIN_SPEED_PERMILLE <= self.speed_permille <= MAX_SPEED_PERMILLE
        &&& self.volume_permille <= MAX_VOLUME_PERMILLE
        &&& 0 <= self.fade_in_ms <= MAX_TIME_MS
        &&& 0 <= self.fade_out_ms <= MAX_TIME_MS
    }

    /// End of the clip's placement on the timeline (exclusive).
    pub open spec fn spec_end_time_ms(self) -> int {
        self.start_time_ms + self.duration_ms
    }

    /// Whether timeline time `t` falls inside the clip's placement.
    pub open spec fn spec_contains_time(self, t: int) -> bool {
        self.start_time_ms <= t < self.spec_end_time_ms()
    }

    /// The source-file time corresponding to timeline time `t`.
    pub open spec fn source_time_of(self, t: int) -> int {
        self.trim_start_ms + (t - self.start_time_ms) * self.speed_permille / 1000
    }

    pub fn new(
        id: u64,
        file_path: String,
        start_time_ms: i64,
        duration_ms: i64,
    ) -> (clip: AudioClip)
        requires
            0 <= start_time_ms <= MAX_TIME_MS,
            0 < duration_ms <= MAX_TIME_MS,
        ensures
            clip.valid(),
            clip.id == id,
            clip.file_path@ == file_path@,
            clip.start_time_ms == start_time_ms,
            clip.duration_ms == duration_ms,
            clip.trim_start_ms == 0,
            clip.trim_end_ms == duration_ms,
            clip.speed_permille == 1000u32,
            clip.volume_permille == 1000u32,
            clip.fade_in_ms == 0,
            clip.fade_out_ms == 0,
    {
        AudioClip {
            id,
            file_path,
            start_time_ms,
            duration_ms,
            trim_start_ms: 0,
            trim_end_ms: duration_ms,
            speed_permille: 1000,
            volume_permille: 1000,
            fade_in_ms: 0,
            fade_out_ms: 0,
        }
    }

    /// End of the clip's placement on the timeline (exclusive).
    pub fn end_time_ms(&self) -> (r: i64)
        requires
            self.valid(),
        ensures
            r == self.spec_end_time_ms(),
    {
        self.start_time_ms + self.duration_ms
    }

    /// Whether timeline time `t` falls inside the clip's placement.
    pub fn contains_time(&self, time_ms: i64) -> (r: bool)
        requires
            self.valid(),
        ensures
            r == self.spec_contains_time(time_ms as int),
    {
        self.start_time_ms <= time_ms && time_ms < self.start_time_ms + self.duration_ms
    }

    /// A copy whose abstract value equals this clip's.
    pub fn duplicate(&self) -> (r: AudioClip)
        ensures
            r@ == self@,
            r.valid() == self.valid(),
    {
        AudioClip {
            id: self.id,
            file_path: self.file_path.clone(),
            start_time_ms: self.start_time_ms,
            duration_ms: self.duration_ms,
            trim_start_ms: self.trim_start_ms,
            trim_end_ms: self.trim_end_ms,
            speed_permille: self.speed_permille,
            volume_permille: self.volume_permille,
            fade_in_ms: self.fade_in_ms,
            fade_out_ms: self.fade_out_ms,
        }
    }
}

/// A source time mapped from inside a valid clip stays in a bounded range.
pub proof fn lemma_source_time_in_range(clip: VideoClip, t: int)
    requires
        clip.valid(),
        clip.spec_contains_time(t),
    ensures
        0 <= clip.source_time_of(t) <= 5 * MAX_TIME_MS,
{
    let off = t - clip.start_time_ms;
    assert(off <= clip.duration_ms);
    assert(0 <= off * clip.speed_permille <= MAX_TIME_MS * 4000) by (nonlinear_arith)
        requires
            0 <= off <= MAX_TIME_MS,
            0 < clip.speed_permille <= 4000,
    ;
    assert(0 <= off * clip.speed_permille / 1000 <= 4 * MAX_TIME_MS) by (nonlinear_arith)
        requires
            0 <= off * clip.speed_permille <= MAX_TIME_MS * 4000,
    ;
}

/// The round-trip map between timeline and source coordinates: for any
/// valid clip and any timeline time inside its placement, the source time
/// is exactly `trim_start + (t - start) * speed`, and it never precedes the
/// clip's trim-in point.
pub proof fn lemma_source_time_round_trip(clip: VideoClip, t: int)
    requires
        clip.valid(),
        clip.spec_contains_time(t),
    ensures
        clip.source_time_of(t) == clip.trim_start_ms + (t - clip.start_time_ms)
            * clip.speed_permille / 1000,
        clip.source_time_of(t) >= clip.trim_start_ms,
        clip.speed_permille == 1000 ==> clip.source_time_of(t) == clip.trim_start_ms + (t
            - clip.start_time_ms),
{
    let off = t - clip.start_time_ms;
    assert(off * clip.speed_permille >= 0) by (nonlinear_arith)
        requires
            off >= 0,
            clip.speed_permille > 0,
    ;
    assert(off * clip.speed_permille / 1000 >= 0);
    assert(off * 1000 / 1000 == off) by (nonlinear_arith);
}

} // verus!
