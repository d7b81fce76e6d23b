//! The preview/export renderer core: which clip or transition a frame
//! shows, the source times the decoders must be asked for, the frame
//! cache, per-clip effects, and the fallback discipline (hold the last
//! frame, or black). Driving the container decoders is the caller's work;
//! their outcomes feed back in here.

use vstd::prelude::*;
use crate::clip::{VideoClip, MAX_TIME_MS};
use crate::decoder::DecodeResult;
use crate::effects::{apply_effects, effect_byte, EffectParams};
use crate::frame::{
    black_frame, black_frame_yuv, rgba_len, PixelFormat, RenderedFrame, RenderedFrameView,
};
use crate::frame_cache::{put_model, CacheEntryView, FrameCache};
use crate::timeline::{spec_track_clip_at, Timeline};
use crate::track::{
    first_active_from, lemma_first_active_found, lemma_first_active_skip, TransitionInfo,
};

verus! {

/// What a frame at a given time is composed from.
pub enum FramePlan {
    /// No clip and no transition: a black frame.
    NoClip,
    /// One clip, decoded at its mapped source time.
    Single { clip: VideoClip, source_time_ms: i64 },
    /// Two overlapping clips blended; each is decoded at its own source
    /// time.
    Transition { info: TransitionInfo, outgoing_source_ms: i64, incoming_source_ms: i64 },
}

/// Whether a track shows a transition at `t`: it is enabled and two of its
/// clips overlap there.
pub open spec fn spec_track_has_transition(track: crate::track::VideoTrack, t: int) -> bool {
    let f = first_active_from(track.clips@, t, 0);
    track.enabled && f >= 0 && first_active_from(track.clips@, t, f + 1) >= 0
}

/// Index of the first effect entry at or after `from` for the clip; -1
/// when there is none.
pub open spec fn first_effect_from(s: Seq<(u64, EffectParams)>, id: u64, from: int) -> int
    decreases s.len() - from,
{
    if from < 0 || from >= s.len() {
        -1
    } else if s[from].0 == id {
        from
    } else {
        first_effect_from(s, id, from + 1)
    }
}

/// The effect parameters registered for a clip, if any.
pub open spec fn spec_effects_for(s: Seq<(u64, EffectParams)>, id: u64) -> Option<EffectParams> {
    if first_effect_from(s, id, 0) >= 0 {
        Some(s[first_effect_from(s, id, 0)].1)
    } else {
        None
    }
}

/// Scanning over entries of other clips does not change which entry is
/// found.
pub proof fn lemma_first_effect_skip(s: Seq<(u64, EffectParams)>, id: u64, from: int, upto: int)
    requires
        0 <= from <= upto <= s.len(),
        forall|j: int| from <= j < upto ==> (#[trigger] s[j]).0 != id,
    ensures
        first_effect_from(s, id, from) == first_effect_from(s, id, upto),
    decreases upto - from,
{
    if from < upto {
        lemma_first_effect_skip(s, id, from + 1, upto);
    }
}

/// A found first-effect index is in range and carries the clip's id.
pub proof fn lemma_first_effect_found(s: Seq<(u64, EffectParams)>, id: u64, from: int)
    requires
        0 <= from,
        first_effect_from(s, id, from) >= 0,
    ensures
        from <= first_effect_from(s, id, from) < s.len(),
        s[first_effect_from(s, id, from)].0 == id,
    decreases s.len() - from,
{
    if from < s.len() && s[from].0 != id {
        lemma_first_effect_found(s, id, from + 1);
    }
}

/// A decoded frame turned into output: stamped at the requested timeline
/// time, with the clip's colour effects applied to RGBA data.
pub open spec fn effected_data(d: Seq<u8>, e: Option<EffectParams>, yuv: bool) -> Seq<u8> {
    if !yuv && e is Some {
        Seq::new(d.len(), |i: int| effect_byte(d, e.unwrap(), i))
    } else {
        d
    }
}

/// The renderer: composition state for one preview or export pipeline.
pub struct Renderer {
    pub frame_cache: FrameCache,
    /// Per-clip effect parameters; a clip without an entry is unchanged.
    pub clip_effects: Vec<(u64, EffectParams)>,
    /// The last successfully rendered frame, served when a frame is
    /// skipped.
    pub last_rendered_frame: Option<RenderedFrame>,
    /// Playback raises decoder forward thresholds and skips caching.
    pub playback_mode: bool,
    /// Output size for export; `None` renders the 960x540 preview.
    pub export_resolution: Option<(u32, u32)>,
    /// How long the previous frame took, for the adaptive transition skip.
    pub last_render_elapsed_ms: u64,
}

impl Renderer {
    /// Well-formedness: a valid cache, one effect entry per clip, and a
    /// bounded export size.
    pub open spec fn valid(self) -> bool {
        &&& self.frame_cache.valid()
        &&& forall|i: int, j: int|
            0 <= i < j < self.clip_effects@.len() ==> (#[trigger] self.clip_effects@[i]).0 != (
            #[trigger] self.clip_effects@[j]).0
        &&& forall|i: int|
            0 <= i < self.clip_effects@.len() ==> (#[trigger] self.clip_effects@[i]).1.valid()
        &&& match self.export_resolution {
            Some((w, h)) => 2 <= w <= 8192 && 2 <= h <= 8192,
            None => true,
        }
    }

    /// A preview renderer: a 60-frame, 200 MB cache.
    pub fn new() -> (r: Renderer)
        ensures
            r.valid(),
            r.frame_cache@.len() == 0,
            r.frame_cache.max_entries == 60,
            r.frame_cache.max_bytes == 200 * 1024 * 1024,
            r.clip_effects@.len() == 0,
            r.last_rendered_frame is None,
            !r.playback_mode,
            r.export_resolution is None,
            r.last_render_elapsed_ms == 0,
    {
        Renderer {
            frame_cache: FrameCache::new(60, 200 * 1024 * 1024),
            clip_effects: Vec::new(),
            last_rendered_frame: None,
            playback_mode: false,
            export_resolution: None,
            last_render_elapsed_ms: 0,
        }
    }

    /// An export renderer: isolated from the preview, sequential access, a
    /// tiny 5-frame, 50 MB cache, and forward decoding from the start.
    pub fn new_for_export(width: u32, height: u32) -> (r: Renderer)
        requires
            2 <= width <= 8192,
            2 <= height <= 8192,
        ensures
            r.valid(),
            r.frame_cache@.len() == 0,
            r.frame_cache.max_entries == 5,
            r.frame_cache.max_bytes == 50 * 1024 * 1024,
            r.clip_effects@.len() == 0,
            r.last_rendered_frame is None,
            r.playback_mode,
            r.export_resolution == Some((width, height)),
            r.last_render_elapsed_ms == 0,
    {
        Renderer {
            frame_cache: FrameCache::new(5, 50 * 1024 * 1024),
            clip_effects: Vec::new(),
            last_rendered_frame: None,
            playback_mode: true,
            export_resolution: Some((width, height)),
            last_render_elapsed_ms: 0,
        }
    }

    /// Enter or leave playback: playback prefers forward decoding, while
    /// scrubbing prefers exact seeks. The caller propagates the matching
    /// threshold to its open decoders and drops broken ones.
    pub fn set_playback_mode(&mut self, playback: bool)
        requires
            old(self).valid(),
        ensures
            final(self).valid(),
            final(self).playback_mode == playback,
            final(self).frame_cache == old(self).frame_cache,
            final(self).clip_effects == old(self).clip_effects,
            final(self).last_rendered_frame == old(self).last_rendered_frame,
            final(self).export_resolution == old(self).export_resolution,
            final(self).last_render_elapsed_ms == old(self).last_render_elapsed_ms,
    {
        self.playback_mode = playback;
    }

    /// The forward-decode threshold the renderer's decoders should use:
    /// five seconds during playback, 100 ms while scrubbing.
    pub fn decode_threshold_ms(&self) -> (r: i64)
        ensures
            r == (if self.playback_mode {
                5000int
            } else {
                100int
            }),
    {
        if self.playback_mode {
            5000
        } else {
            100
        }
    }

    /// Where a clip is decoded from: always the original for export; the
    /// proxy for preview when one is present on disk.
    pub fn video_path_for_decode(&self, clip: &VideoClip, proxy_exists: bool) -> (r: String)
        ensures
            self.export_resolution is Some ==> r@ == clip.file_path@,
            self.export_resolution is None ==> match clip.proxy_path {
                Some(p) => if proxy_exists {
                    r@ == p@
                } else {
                    r@ == clip.file_path@
                },
                None => r@ == clip.file_path@,
            },
    {
        if self.export_resolution.is_some() {
            return clip.file_path.clone();
        }
        match &clip.proxy_path {
            Some(p) => {
                if proxy_exists {
                    p.clone()
                } else {
                    clip.file_path.clone()
                }
            },
            None => clip.file_path.clone(),
        }
    }

    /// The adaptive transition skip: during preview playback, when the
    /// previous frame already took more than 28 ms, a transition frame
    /// (two decodes) would fall behind, so the previous frame is reused.
    pub fn should_skip_transition(&self) -> (r: bool)
        ensures
            r == (self.playback_mode && self.export_resolution is None
                && self.last_render_elapsed_ms > 28),
    {
        self.playback_mode && self.export_resolution.is_none() && self.last_render_elapsed_ms > 28
    }

    /// Record how long the frame just produced took.
    pub fn note_render_elapsed(&mut self, elapsed_ms: u64)
        requires
            old(self).valid(),
        ensures
            final(self).valid(),
            final(self).last_render_elapsed_ms == elapsed_ms,
            final(self).frame_cache == old(self).frame_cache,
            final(self).clip_effects == old(self).clip_effects,
            final(self).last_rendered_frame == old(self).last_rendered_frame,
            final(self).playback_mode == old(self).playback_mode,
            final(self).export_resolution == old(self).export_resolution,
    {
        self.last_render_elapsed_ms = elapsed_ms;
    }

    /// What the renderer shows when it cannot produce a fresh frame: the
    /// last rendered frame, else black (YUV for export, RGBA preview
    /// size).
    pub fn fallback_frame(&self, timestamp_ms: i64) -> (r: RenderedFrame)
        requires
            self.valid(),
        ensures
            match self.last_rendered_frame {
                Some(f) => r@ == f@,
                None => {
                    &&& r.timestamp_ms == timestamp_ms
                    &&& forall|i: int|
                        0 <= i < (r.width as int) * (r.height as int) ==> r@.data[i] == 0u8
                    &&& match self.export_resolution {
                        Some((w, h)) => r.width == w && r.height == h && r.is_yuv
                            && r@.data.len() == crate::frame::yuv420p_len(w as int, h as int),
                        None => r.width == 960 && r.height == 540 && !r.is_yuv && r@.data.len()
                            == rgba_len(960, 540),
                    }
                },
            },
    {
        match &self.last_rendered_frame {
            Some(f) => f.duplicate(),
            None => match self.export_resolution {
                Some((w, h)) => {
                    proof {
                        assert(crate::frame::yuv420p_len(w as int, h as int) <= 8192 * 8192 * 2)
                            by (nonlinear_arith)
                            requires
                                2 <= w <= 8192,
                                2 <= h <= 8192,
                        ;
                    }
                    black_frame_yuv(w, h, timestamp_ms)
                },
                None => black_frame(timestamp_ms),
            },
        }
    }

    /// The previous frame reused in place of a transition frame, restamped
    /// at the requested time; rendering resumes next tick.
    pub fn reuse_last_frame(&mut self, timestamp_ms: i64) -> (r: Option<RenderedFrame>)
        requires
            old(self).valid(),
        ensures
            final(self).valid(),
            match old(self).last_rendered_frame {
                Some(f) => match r {
                    Some(g) => g@ == (RenderedFrameView { timestamp_ms, ..f@ }),
                    None => false,
                },
                None => r is None,
            },
            final(self).last_render_elapsed_ms == (if old(self).last_rendered_frame is Some {
                0int
            } else {
                old(self).last_render_elapsed_ms as int
            }),
            final(self).frame_cache == old(self).frame_cache,
            final(self).clip_effects == old(self).clip_effects,
            final(self).last_rendered_frame == old(self).last_rendered_frame,
            final(self).playback_mode == old(self).playback_mode,
            final(self).export_resolution == old(self).export_resolution,
    {
        match &self.last_rendered_frame {
            Some(f) => {
                let out = f.duplicate_at(timestamp_ms);
                self.last_render_elapsed_ms = 0;
                Some(out)
            },
            None => None,
        }
    }

    /// The effect parameters registered for a clip, if any.
    pub fn effects_for(&self, clip_id: u64) -> (r: Option<EffectParams>)
        ensures
            r == spec_effects_for(self.clip_effects@, clip_id),
    {
        let mut i: usize = 0;
        while i < self.clip_effects.len()
            invariant
                i <= self.clip_effects@.len(),
                forall|j: int|
                    0 <= j < i ==> (#[trigger] self.clip_effects@[j]).0 != clip_id,
            decreases self.clip_effects@.len() - i,
        {
            if self.clip_effects[i].0 == clip_id {
                proof {
                    lemma_first_effect_skip(self.clip_effects@, clip_id, 0, i as int);
                    assert(first_effect_from(self.clip_effects@, clip_id, i as int) == i);
                }
                return Some(self.clip_effects[i].1);
            }
            i = i + 1;
        }
        proof {
            lemma_first_effect_skip(self.clip_effects@, clip_id, 0, self.clip_effects@.len() as int);
        }
        None
    }

    /// Register (or, with default parameters, drop) a clip's effects.
    /// Changed effects invalidate every cached frame.
    pub fn set_clip_effects(&mut self, clip_id: u64, params: EffectParams)
        requires
            old(self).valid(),
            params.valid(),
        ensures
            final(self).valid(),
            final(self).frame_cache@.len() == 0,
            params.spec_is_default() ==> forall|i: int|
                0 <= i < final(self).clip_effects@.len() ==> (
                #[trigger] final(self).clip_effects@[i]).0 != clip_id,
            !params.spec_is_default() ==> exists|i: int|
                0 <= i < final(self).clip_effects@.len() && (
                #[trigger] final(self).clip_effects@[i]) == (clip_id, params),
            final(self).last_rendered_frame == old(self).last_rendered_frame,
            final(self).playback_mode == old(self).playback_mode,
            final(self).export_resolution == old(self).export_resolution,
    {
        self.remove_effect_entry(clip_id);
        self.frame_cache.clear();
        if !params.is_default() {
            self.clip_effects.push((clip_id, params));
            proof {
                assert(self.clip_effects@[self.clip_effects@.len() - 1] == (clip_id, params));
            }
        }
    }

    /// Drop a clip's effects and invalidate the cache.
    pub fn clear_clip_effects(&mut self, clip_id: u64)
        requires
            old(self).valid(),
        ensures
            final(self).valid(),
            final(self).frame_cache@.len() == 0,
            forall|i: int|
                0 <= i < final(self).clip_effects@.len() ==> (
                #[trigger] final(self).clip_effects@[i]).0 != clip_id,
            final(self).last_rendered_frame == old(self).last_rendered_frame,
            final(self).playback_mode == old(self).playback_mode,
            final(self).export_resolution == old(self).export_resolution,
    {
        self.remove_effect_entry(clip_id);
        self.frame_cache.clear();
    }

    /// Remove the effect entry for a clip, if present.
    fn remove_effect_entry(&mut self, clip_id: u64)
        requires
            old(self).valid(),
        ensures
            final(self).valid(),
            forall|i: int|
                0 <= i < final(self).clip_effects@.len() ==> (
                #[trigger] final(self).clip_effects@[i]).0 != clip_id,
            final(self).frame_cache == old(self).frame_cache,
            final(self).last_rendered_frame == old(self).last_rendered_frame,
            final(self).playback_mode == old(self).playback_mode,
            final(self).export_resolution == old(self).export_resolution,
            final(self).last_render_elapsed_ms == old(self).last_render_elapsed_ms,
    {
        let ghost s0 = self.clip_effects@;
        let mut i: usize = 0;
        while i < self.clip_effects.len()
            invariant
                self.valid(),
                i <= self.clip_effects@.len(),
                forall|j: int|
                    0 <= j < i ==> (#[trigger] self.clip_effects@[j]).0 != clip_id,
                self.frame_cache == old(self).frame_cache,
                self.last_rendered_frame == old(self).last_rendered_frame,
                self.playback_mode == old(self).playback_mode,
                self.export_resolution == old(self).export_resolution,
                self.last_render_elapsed_ms == old(self).last_render_elapsed_ms,
                forall|a: int, b: int|
                    0 <= a < b < self.clip_effects@.len() ==> (
                    #[trigger] self.clip_effects@[a]).0 != (
                    #[trigger] self.clip_effects@[b]).0,
            decreases self.clip_effects@.len() - i,
        {
            if self.clip_effects[i].0 == clip_id {
                let ghost before = self.clip_effects@;
                let _ = self.clip_effects.remove(i);
                proof {
                    assert forall|j: int|
                        0 <= j < self.clip_effects@.len() implies (
                    #[trigger] self.clip_effects@[j]).0 != clip_id by {
                        if j < i {
                            assert(self.clip_effects@[j] == before[j]);
                        } else {
                            assert(self.clip_effects@[j] == before[j + 1]);
                            assert(before[i as int].0 == clip_id);
                        }
                    }
                    assert forall|a: int, b: int|
                        0 <= a < b < self.clip_effects@.len() implies (
                    #[trigger] self.clip_effects@[a]).0 != (
                    #[trigger] self.clip_effects@[b]).0 by {
                        let sa = if a < i {
                            a
                        } else {
                            a + 1
                        };
                        let sb = if b < i {
                            b
                        } else {
                            b + 1
                        };
                        assert(self.clip_effects@[a] == before[sa]);
                        assert(self.clip_effects@[b] == before[sb]);
                    }
                }
                return ;
            }
            i = i + 1;
        }
    }

    /// Drop every cached frame (clip edits invalidate them).
    pub fn clear_cache(&mut self)
        requires
            old(self).valid(),
        ensures
            final(self).valid(),
            final(self).frame_cache@.len() == 0,
            final(self).clip_effects == old(self).clip_effects,
            final(self).last_rendered_frame == old(self).last_rendered_frame,
            final(self).playback_mode == old(self).playback_mode,
            final(self).export_resolution == old(self).export_resolution,
    {
        self.frame_cache.clear();
    }

    /// (cached frame count, cached bytes).
    pub fn cache_stats(&self) -> (r: (u32, usize))
        requires
            self.valid(),
            self.frame_cache@.len() <= u32::MAX,
        ensures
            r.0 == self.frame_cache@.len(),
            r.1 == crate::frame_cache::total_bytes(self.frame_cache@),
    {
        self.frame_cache.stats()
    }

    /// Decide what the frame at `timestamp_ms` is composed from: the first
    /// enabled track showing a transition wins; otherwise the first
    /// enabled, unmuted track with an active clip; otherwise black. The
    /// source times are exactly the clips' timeline-to-source maps.
    pub fn plan_frame(&self, timeline: &Timeline, timestamp_ms: i64) -> (r: FramePlan)
        requires
            self.valid(),
            timeline.valid(),
            0 <= timestamp_ms <= MAX_TIME_MS,
        ensures
            ({
                let t = timestamp_ms as int;
                let tracks = timeline.video_tracks@;
                match r {
                    FramePlan::Transition { info, outgoing_source_ms, incoming_source_ms } => {
                        &&& exists|i: int|
                            {
                                &&& 0 <= i < tracks.len()
                                &&& spec_track_has_transition(#[trigger] tracks[i], t)
                                &&& forall|j: int|
                                    0 <= j < i ==> !spec_track_has_transition(
                                        #[trigger] tracks[j],
                                        t,
                                    )
                                &&& ({
                                    let f = first_active_from(tracks[i].clips@, t, 0);
                                    let g = first_active_from(tracks[i].clips@, t, f + 1);
                                    &&& info.outgoing@ == tracks[i].clips@[f]@
                                    &&& info.incoming@ == tracks[i].clips@[g]@
                                })
                            }
                        &&& info.outgoing.valid()
                        &&& info.incoming.valid()
                        &&& info.outgoing.spec_contains_time(t)
                        &&& info.incoming.spec_contains_time(t)
                        &&& outgoing_source_ms == info.outgoing.source_time_of(t)
                        &&& incoming_source_ms == info.incoming.source_time_of(t)
                        &&& info.progress_permille < 1000
                    },
                    FramePlan::Single { clip, source_time_ms } => {
                        &&& forall|j: int|
                            0 <= j < tracks.len() ==> !spec_track_has_transition(
                                #[trigger] tracks[j],
                                t,
                            )
                        &&& exists|i: int|
                            {
                                &&& 0 <= i < tracks.len()
                                &&& (match spec_track_clip_at(#[trigger] tracks[i], t) {
                                    Some(c0) => clip@ == c0@,
                                    None => false,
                                })
                                &&& forall|j: int|
                                    0 <= j < i ==> spec_track_clip_at(
                                        #[trigger] tracks[j],
                                        t,
                                    ) is None
                            }
                        &&& clip.valid()
                        &&& clip.spec_contains_time(t)
                        &&& source_time_ms == clip.source_time_of(t)
                    },
                    FramePlan::NoClip => {
                        &&& forall|j: int|
                            0 <= j < tracks.len() ==> !spec_track_has_transition(
                                #[trigger] tracks[j],
                                t,
                            )
                        &&& forall|j: int|
                            0 <= j < tracks.len() ==> spec_track_clip_at(
                                #[trigger] tracks[j],
                                t,
                            ) is None
                    },
                }
            }),
    {
        let ghost t = timestamp_ms as int;
        let ghost tracks = timeline.video_tracks@;
        let n = timeline.video_tracks.len();
        // First pass: the earliest track showing a transition.
        let mut i: usize = 0;
        while i < n
            invariant
                self.valid(),
                timeline.valid(),
                0 <= timestamp_ms <= MAX_TIME_MS,
                t == timestamp_ms as int,
                tracks == timeline.video_tracks@,
                n == tracks.len(),
                i <= n,
                forall|j: int|
                    0 <= j < i ==> !spec_track_has_transition(#[trigger] tracks[j], t),
            decreases n - i,
        {
            let track = &timeline.video_tracks[i];
            match track.get_transition_at_time(timestamp_ms) {
                Some(info) => {
                    proof {
                        let f = first_active_from(track.clips@, t, 0);
                        let g = first_active_from(track.clips@, t, f + 1);
                        lemma_first_active_found(track.clips@, t, 0);
                        lemma_first_active_found(track.clips@, t, f + 1);
                        assert(track.clips@[f].valid());
                        assert(track.clips@[g].valid());
                        assert(info.outgoing@ == track.clips@[f]@);
                        assert(info.incoming@ == track.clips@[g]@);
                        assert(info.outgoing.valid());
                        assert(info.incoming.valid());
                        assert(info.outgoing.spec_contains_time(t));
                        assert(info.incoming.spec_contains_time(t));
                        crate::clip::lemma_source_time_in_range(info.outgoing, t);
                        crate::clip::lemma_source_time_in_range(info.incoming, t);
                    }
                    let out_src = match info.outgoing.timeline_to_source_time(timestamp_ms) {
                        Some(s) => s,
                        None => {
                            proof {
                                assert(false);
                            }
                            0
                        },
                    };
                    let in_src = match info.incoming.timeline_to_source_time(timestamp_ms) {
                        Some(s) => s,
                        None => {
                            proof {
                                assert(false);
                            }
                            0
                        },
                    };
                    proof {
                        let w = i as int;
                        assert(spec_track_has_transition(tracks[w], t));
                        assert({
                            &&& 0 <= w < tracks.len()
                            &&& spec_track_has_transition(tracks[w], t)
                            &&& forall|j: int|
                                0 <= j < w ==> !spec_track_has_transition(#[trigger] tracks[j], t)
                            &&& ({
                                let f = first_active_from(tracks[w].clips@, t, 0);
                                let g = first_active_from(tracks[w].clips@, t, f + 1);
                                &&& info.outgoing@ == tracks[w].clips@[f]@
                                &&& info.incoming@ == tracks[w].clips@[g]@
                            })
                        });
                    }
                    return FramePlan::Transition {
                        info,
                        outgoing_source_ms: out_src,
                        incoming_source_ms: in_src,
                    };
                },
                None => {
                    proof {
                        assert(!spec_track_has_transition(tracks[i as int], t));
                    }
                },
            }
            i = i + 1;
        }
        // Second pass: the earliest enabled, unmuted track with a clip.
        let mut i: usize = 0;
        while i < n
            invariant
                self.valid(),
                timeline.valid(),
                0 <= timestamp_ms <= MAX_TIME_MS,
                t == timestamp_ms as int,
                tracks == timeline.video_tracks@,
                n == tracks.len(),
                i <= n,
                forall|j: int|
                    0 <= j < n ==> !spec_track_has_transition(#[trigger] tracks[j], t),
                forall|j: int| 0 <= j < i ==> spec_track_clip_at(#[trigger] tracks[j], t) is None,
            decreases n - i,
        {
            let track = &timeline.video_tracks[i];
            match track.get_clip_at_time(timestamp_ms) {
                Some(c) => {
                    proof {
                        let k = choose|k: int|
                            {
                                &&& 0 <= k < track.clips@.len()
                                &&& *c == track.clips@[k]
                                &&& (#[trigger] track.clips@[k]).spec_contains_time(t)
                                &&& forall|j: int|
                                    0 <= j < k ==> !(#[trigger] track.clips@[j]).spec_contains_time(
                                        t,
                                    )
                            };
                        lemma_first_active_skip(track.clips@, t, 0, k);
                        assert(first_active_from(track.clips@, t, k) == k);
                        assert(spec_track_clip_at(tracks[i as int], t) == Some(*c));
                        assert(track.clips@[k].valid());
                        crate::clip::lemma_source_time_in_range(*c, t);
                    }
                    let source_time_ms = match c.timeline_to_source_time(timestamp_ms) {
                        Some(s) => s,
                        None => {
                            proof {
                                assert(false);
                            }
                            0
                        },
                    };
                    let clip = c.duplicate();
                    proof {
                        assert(clip@ == c@);
                        assert(clip.valid());
                        let w = i as int;
                        assert({
                            &&& 0 <= w < tracks.len()
                            &&& (match spec_track_clip_at(tracks[w], t) {
                                Some(c0) => clip@ == c0@,
                                None => false,
                            })
                            &&& forall|j: int|
                                0 <= j < w ==> spec_track_clip_at(#[trigger] tracks[j], t) is None
                        });
                    }
                    return FramePlan::Single { clip, source_time_ms };
                },
                None => {
                    proof {
                        let tr = tracks[i as int];
                        if tr.enabled && !tr.muted {
                            lemma_first_active_skip(tr.clips@, t, 0, tr.clips@.len() as int);
                        }
                        assert(spec_track_clip_at(tracks[i as int], t) is None);
                    }
                },
            }
            i = i + 1;
        }
        FramePlan::NoClip
    }

    /// Fold a decode outcome into the renderer, producing the frame to
    /// show at `timestamp_ms`: a fresh frame is stamped, takes the clip's
    /// colour effects (RGBA only), is cached outside playback (sequential
    /// frames never hit), and becomes the new fallback; an end-of-stream
    /// frame becomes the fallback uncached; a skipped or empty outcome
    /// serves the existing fallback and changes nothing.
    pub fn integrate_single_decode(
        &mut self,
        clip_id: u64,
        file_path: String,
        source_time_ms: i64,
        timestamp_ms: i64,
        result: DecodeResult,
    ) -> (r: RenderedFrame)
        requires
            old(self).valid(),
            match result {
                DecodeResult::Frame(f) => f.format != PixelFormat::YUV420P ==> f.data@.len()
                    == rgba_len(f.width as int, f.height as int),
                _ => true,
            },
        ensures
            final(self).valid(),
            final(self).playback_mode == old(self).playback_mode,
            final(self).export_resolution == old(self).export_resolution,
            final(self).clip_effects == old(self).clip_effects,
            final(self).frame_cache.max_entries == old(self).frame_cache.max_entries,
            final(self).frame_cache.max_bytes == old(self).frame_cache.max_bytes,
            match result {
                DecodeResult::Frame(f) => {
                    let yuv = f.format == PixelFormat::YUV420P;
                    let shown = RenderedFrameView {
                        width: f.width,
                        height: f.height,
                        data: effected_data(
                            f.data@,
                            spec_effects_for(old(self).clip_effects@, clip_id),
                            yuv,
                        ),
                        timestamp_ms,
                        is_yuv: yuv,
                    };
                    &&& r@ == shown
                    &&& match final(self).last_rendered_frame {
                        Some(g) => g@ == shown,
                        None => false,
                    }
                    &&& !old(self).playback_mode ==> final(self).frame_cache@ == put_model(
                        old(self).frame_cache@,
                        old(self).frame_cache.max_entries as int,
                        old(self).frame_cache.max_bytes as int,
                        CacheEntryView { file_path: file_path@, source_time_ms, frame: shown },
                    )
                    &&& old(self).playback_mode ==> final(self).frame_cache@ == old(
                        self,
                    ).frame_cache@
                },
                DecodeResult::EndOfStream(f) => {
                    let yuv = f.format == PixelFormat::YUV420P;
                    let shown = RenderedFrameView {
                        width: f.width,
                        height: f.height,
                        data: f.data@,
                        timestamp_ms,
                        is_yuv: yuv,
                    };
                    &&& r@ == shown
                    &&& match final(self).last_rendered_frame {
                        Some(g) => g@ == shown,
                        None => false,
                    }
                    &&& final(self).frame_cache@ == old(self).frame_cache@
                },
                _ => {
                    &&& final(self).frame_cache@ == old(self).frame_cache@
                    &&& final(self).last_rendered_frame == old(self).last_rendered_frame
                    &&& match old(self).last_rendered_frame {
                        Some(f) => r@ == f@,
                        None => {
                            &&& r.timestamp_ms == timestamp_ms
                            &&& match old(self).export_resolution {
                                Some((w, h)) => r.width == w && r.height == h && r.is_yuv,
                                None => r.width == 960 && r.height == 540 && !r.is_yuv,
                            }
                        },
                    }
                },
            },
    {
        match result {
            DecodeResult::Frame(f) => {
                let is_yuv = matches!(f.format, PixelFormat::YUV420P);
                let mut data = f.data;
                if !is_yuv {
                    match self.effects_for(clip_id) {
                        Some(params) => {
                            proof {
                                lemma_first_effect_found(self.clip_effects@, clip_id, 0);
                            }
                            let ghost before = data@;
                            let data_len = data.len();
                            proof {
                                assert(data@.len() == data_len);
                            }
                            apply_effects(&mut data, f.width, f.height, &params);
                            proof {
                                assert(data@ =~= Seq::new(
                                    before.len(),
                                    |i: int| effect_byte(before, params, i),
                                ));
                            }
                        },
                        None => {},
                    }
                }
                let rendered = RenderedFrame {
                    width: f.width,
                    height: f.height,
                    data,
                    timestamp_ms,
                    is_yuv,
                };
                if !self.playback_mode {
                    self.frame_cache.put(file_path, source_time_ms, rendered.duplicate());
                }
                let out = rendered.duplicate();
                self.last_rendered_frame = Some(rendered);
                out
            },
            DecodeResult::EndOfStream(f) => {
                let rendered = RenderedFrame {
                    width: f.width,
                    height: f.height,
                    data: f.data,
                    timestamp_ms,
                    is_yuv: matches!(f.format, PixelFormat::YUV420P),
                };
                let out = rendered.duplicate();
                self.last_rendered_frame = Some(rendered);
                out
            },
            DecodeResult::FrameSkipped => self.fallback_frame(timestamp_ms),
            DecodeResult::EndOfStreamEmpty => self.fallback_frame(timestamp_ms),
        }
    }
}

} // verus!
