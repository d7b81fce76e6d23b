//! Tracks: ordered layers of clips. Clips on a track are kept sorted by
//! start time; two overlapping video clips on one track form a transition.

use vstd::prelude::*;
use crate::clip::{AudioClip, AudioClipView, TransitionType, VideoClip, VideoClipView};

verus! {

/// Two overlapping clips on the same video track, with the blend progress
/// (0 = outgoing only, 1000 = incoming only, in per-mille).
#[derive(Debug, Clone)]
pub struct TransitionInfo {
    /// The clip that started first and is on its way out.
    pub outgoing: VideoClip,
    /// The clip that started later and is on its way in.
    pub incoming: VideoClip,
    pub progress_permille: u32,
    pub transition_type: TransitionType,
}

/// A video track: an ordered sequence of video clips.
#[derive(Debug, Clone)]
pub struct VideoTrack {
    pub id: u64,
    pub index: usize,
    pub clips: Vec<VideoClip>,
    pub enabled: bool,
    pub muted: bool,
}

/// An audio track: an ordered sequence of audio clips; several clips may
/// sound at once.
#[derive(Debug, Clone)]
pub struct AudioTrack {
    pub id: u64,
    pub index: usize,
    pub clips: Vec<AudioClip>,
    pub enabled: bool,
    pub muted: bool,
}

/// Index of the first clip at or after `from` whose placement contains
/// `t`; -1 when there is none.
pub open spec fn first_active_from(s: Seq<VideoClip>, t: int, from: int) -> int
    decreases s.len() - from,
{
    if from < 0 || from >= s.len() {
        -1
    } else if s[from].spec_contains_time(t) {
        from
    } else {
        first_active_from(s, t, from + 1)
    }
}

/// Scanning over a stretch of clips that do not contain `t` does not change
/// where the first active clip is found.
pub proof fn lemma_first_active_skip(s: Seq<VideoClip>, t: int, from: int, upto: int)
    requires
        0 <= from <= upto <= s.len(),
        forall|j: int| from <= j < upto ==> !(#[trigger] s[j]).spec_contains_time(t),
    ensures
        first_active_from(s, t, from) == first_active_from(s, t, upto),
    decreases upto - from,
{
    if from < upto {
        lemma_first_active_skip(s, t, from + 1, upto);
    }
}

/// Track `t1` is track `t0` with one clip of abstract value `v` inserted
/// somewhere, everything else unchanged.
pub open spec fn video_track_gained_clip(t0: VideoTrack, t1: VideoTrack, v: VideoClipView) -> bool {
    &&& t1.id == t0.id
    &&& t1.index == t0.index
    &&& t1.enabled == t0.enabled
    &&& t1.muted == t0.muted
    &&& exists|k: int|
        #![trigger t0.clips@.insert(k, t1.clips@[k])]
        {
            &&& 0 <= k <= t0.clips@.len()
            &&& t1.clips@ == t0.clips@.insert(k, t1.clips@[k])
            &&& t1.clips@[k]@ == v
        }
}

/// Track `t1` is track `t0` with one clip of abstract value `v` inserted
/// somewhere, everything else unchanged.
pub open spec fn audio_track_gained_clip(t0: AudioTrack, t1: AudioTrack, v: AudioClipView) -> bool {
    &&& t1.id == t0.id
    &&& t1.index == t0.index
    &&& t1.enabled == t0.enabled
    &&& t1.muted == t0.muted
    &&& exists|k: int|
        #![trigger t0.clips@.insert(k, t1.clips@[k])]
        {
            &&& 0 <= k <= t0.clips@.len()
            &&& t1.clips@ == t0.clips@.insert(k, t1.clips@[k])
            &&& t1.clips@[k]@ == v
        }
}

/// Track `t1` is track `t0` with its first clip of id `clip_id` removed,
/// everything else unchanged.
pub open spec fn video_track_removed_clip(t0: VideoTrack, t1: VideoTrack, clip_id: u64) -> bool {
    &&& t1.id == t0.id
    &&& t1.index == t0.index
    &&& t1.enabled == t0.enabled
    &&& t1.muted == t0.muted
    &&& exists|k: int|
        #![trigger t0.clips@.remove(k)]
        {
            &&& 0 <= k < t0.clips@.len()
            &&& t0.clips@[k].id == clip_id
            &&& forall|j: int| 0 <= j < k ==> t0.clips@[j].id != clip_id
            &&& t1.clips@ == t0.clips@.remove(k)
        }
}

/// Track `t1` is track `t0` with its first clip of id `clip_id` removed,
/// everything else unchanged.
pub open spec fn audio_track_removed_clip(t0: AudioTrack, t1: AudioTrack, clip_id: u64) -> bool {
    &&& t1.id == t0.id
    &&& t1.index == t0.index
    &&& t1.enabled == t0.enabled
    &&& t1.muted == t0.muted
    &&& exists|k: int|
        #![trigger t0.clips@.remove(k)]
        {
            &&& 0 <= k < t0.clips@.len()
            &&& t0.clips@[k].id == clip_id
            &&& forall|j: int| 0 <= j < k ==> t0.clips@[j].id != clip_id
            &&& t1.clips@ == t0.clips@.remove(k)
        }
}

/// The abstract values of a sequence of video clips.
pub open spec fn video_views(s: Seq<VideoClip>) -> Seq<VideoClipView> {
    s.map_values(|c: VideoClip| c@)
}

/// Appending a clip appends its abstract value.
pub proof fn lemma_video_views_push(s: Seq<VideoClip>, c: VideoClip)
    ensures
        video_views(s.push(c)) == video_views(s).push(c@),
{
    assert(video_views(s.push(c)) =~= video_views(s).push(c@));
}

/// Concatenating clip sequences concatenates their abstract values.
pub proof fn lemma_audio_views_add(a: Seq<AudioClip>, b: Seq<AudioClip>)
    ensures
        audio_views(a + b) == audio_views(a) + audio_views(b),
{
    assert(audio_views(a + b) =~= audio_views(a) + audio_views(b));
}

/// A found first-active index is in range and its clip contains `t`.
pub proof fn lemma_first_active_found(s: Seq<VideoClip>, t: int, from: int)
    requires
        0 <= from,
        first_active_from(s, t, from) >= 0,
    ensures
        from <= first_active_from(s, t, from) < s.len(),
        s[first_active_from(s, t, from)].spec_contains_time(t),
    decreases s.len() - from,
{
    if from < s.len() && !s[from].spec_contains_time(t) {
        lemma_first_active_found(s, t, from + 1);
    }
}

/// Clips ordered by their start time.
pub open spec fn sorted_by_start(s: Seq<VideoClip>) -> bool {
    forall|i: int, j: int|
        0 <= i < j < s.len() ==> s[i].start_time_ms <= s[j].start_time_ms
}

/// Audio clips ordered by their start time.
pub open spec fn audio_sorted_by_start(s: Seq<AudioClip>) -> bool {
    forall|i: int, j: int|
        0 <= i < j < s.len() ==> s[i].start_time_ms <= s[j].start_time_ms
}

/// The abstract values of a sequence of audio clips.
pub open spec fn audio_views(s: Seq<AudioClip>) -> Seq<AudioClipView> {
    s.map_values(|c: AudioClip| c@)
}

/// The abstract values of the audio clips of `s` sounding at time `t`, in
/// order.
pub open spec fn active_audio_views(s: Seq<AudioClip>, t: int) -> Seq<AudioClipView> {
    audio_views(s.filter(|c: AudioClip| c.spec_contains_time(t)))
}

/// Appending a clip appends its abstract value.
pub proof fn lemma_audio_views_push(s: Seq<AudioClip>, c: AudioClip)
    ensures
        audio_views(s.push(c)) == audio_views(s).push(c@),
{
    assert(audio_views(s.push(c)) =~= audio_views(s).push(c@));
}

/// Extending the scanned prefix by one clip extends the active clips by
/// that clip exactly when it sounds at `t`.
pub proof fn lemma_active_audio_take_step(s: Seq<AudioClip>, t: int, i: int)
    requires
        0 <= i < s.len(),
    ensures
        s[i].spec_contains_time(t) ==> active_audio_views(s.take(i + 1), t) == active_audio_views(
            s.take(i),
            t,
        ).push(s[i]@),
        !s[i].spec_contains_time(t) ==> active_audio_views(s.take(i + 1), t) == active_audio_views(
            s.take(i),
            t,
        ),
{
    let pred = |c: AudioClip| c.spec_contains_time(t);
    let p0 = s.take(i);
    let p1 = s.take(i + 1);
    assert(p1.drop_last() =~= p0);
    assert(p1.last() == s[i]);
    reveal(Seq::filter);
    if pred(s[i]) {
        assert(p1.filter(pred) == p0.filter(pred).push(s[i]));
        lemma_audio_views_push(p0.filter(pred), s[i]);
    } else {
        assert(p1.filter(pred) == p0.filter(pred));
    }
}

/// Blend progress of a transition at time `t`: how far `t` sits inside the
/// overlap `[incoming.start, outgoing.end)`, in per-mille.
pub open spec fn spec_transition_progress(outgoing: VideoClip, incoming: VideoClip, t: int) -> int {
    (t - incoming.start_time_ms) * 1000 / (outgoing.spec_end_time_ms() - incoming.start_time_ms)
}

impl VideoTrack {
    /// Well-formedness: every clip is valid and the order is by start time.
    pub open spec fn valid(self) -> bool {
        &&& sorted_by_start(self.clips@)
        &&& forall|i: int| 0 <= i < self.clips@.len() ==> #[trigger] self.clips@[i].valid()
    }

    pub fn new(id: u64, index: usize) -> (track: VideoTrack)
        ensures
            track.valid(),
            track.id == id,
            track.index == index,
            track.clips@.len() == 0,
            track.enabled,
            !track.muted,
    {
        VideoTrack { id, index, clips: Vec::new(), enabled: true, muted: false }
    }

    /// Insert a clip, keeping the order by start time (a clip starting at
    /// the same time as existing ones goes after them).
    pub fn add_clip(&mut self, clip: VideoClip)
        requires
            old(self).valid(),
            clip.valid(),
        ensures
            final(self).valid(),
            final(self).id == old(self).id,
            final(self).index == old(self).index,
            final(self).enabled == old(self).enabled,
            final(self).muted == old(self).muted,
            video_track_gained_clip(*old(self), *final(self), clip@),
            exists|i: int|
                {
                    &&& 0 <= i <= old(self).clips@.len()
                    &&& #[trigger] final(self).clips@ == old(self).clips@.insert(i, clip)
                    &&& forall|j: int|
                        0 <= j < i ==> (#[trigger] old(self).clips@[j]).start_time_ms
                            <= clip.start_time_ms
                    &&& i < old(self).clips@.len() ==> old(self).clips@[i as int].start_time_ms
                        > clip.start_time_ms
                },
    {
        let ghost s0 = self.clips@;
        let mut i: usize = 0;
        while i < self.clips.len() && self.clips[i].start_time_ms <= clip.start_time_ms
            invariant
                self == old(self),
                i <= self.clips@.len(),
                forall|j: int|
                    0 <= j < i ==> (#[trigger] self.clips@[j]).start_time_ms
                        <= clip.start_time_ms,
            decreases self.clips@.len() - i,
        {
            i = i + 1;
        }
        self.clips.insert(i, clip);
        proof {
            let ins = s0.insert(i as int, clip);
            assert forall|a: int, b: int| 0 <= a < b < ins.len() implies ins[a].start_time_ms
                <= ins[b].start_time_ms by {
                if a < i && b == i {
                } else if a == i && b > i {
                } else if a < i && b > i {
                    assert(s0[a].start_time_ms <= s0[b - 1].start_time_ms);
                } else if b < i {
                } else {
                    assert(a > i ==> ins[a] == s0[a - 1]);
                }
            }
            assert(self.clips@[i as int] == clip);
            assert(self.clips@ == s0.insert(i as int, self.clips@[i as int]));
            assert(exists|k: int|
                {
                    &&& 0 <= k <= s0.len()
                    &&& #[trigger] self.clips@ == s0.insert(k, clip)
                    &&& forall|j: int|
                        0 <= j < k ==> (#[trigger] s0[j]).start_time_ms <= clip.start_time_ms
                    &&& k < s0.len() ==> s0[k as int].start_time_ms > clip.start_time_ms
                }) by {
                assert({
                    &&& 0 <= i as int <= s0.len()
                    &&& self.clips@ == s0.insert(i as int, clip)
                    &&& forall|j: int|
                        0 <= j < i as int ==> (#[trigger] s0[j]).start_time_ms
                            <= clip.start_time_ms
                    &&& i < s0.len() ==> s0[i as int].start_time_ms > clip.start_time_ms
                });
            }
        }
    }

    /// Remove the clip with the given id; `None` and no change when the
    /// track holds no such clip.
    #[verifier::rlimit(60)]
    pub fn remove_clip(&mut self, clip_id: u64) -> (r: Option<VideoClip>)
        requires
            old(self).valid(),
        ensures
            final(self).valid(),
            final(self).id == old(self).id,
            final(self).index == old(self).index,
            final(self).enabled == old(self).enabled,
            final(self).muted == old(self).muted,
            r is Some ==> video_track_removed_clip(*old(self), *final(self), clip_id),
            match r {
                Some(c) => exists|i: int|
                    {
                        &&& 0 <= i < old(self).clips@.len()
                        &&& c == old(self).clips@[i]
                        &&& (#[trigger] old(self).clips@[i]).id == clip_id
                        &&& forall|j: int| 0 <= j < i ==> old(self).clips@[j].id != clip_id
                        &&& final(self).clips@ == old(self).clips@.remove(i)
                    },
                None => {
                    &&& final(self).clips@ == old(self).clips@
                    &&& forall|i: int|
                        0 <= i < old(self).clips@.len() ==> (#[trigger] old(
                            self,
                        ).clips@[i]).id != clip_id
                },
            },
    {
        let ghost s0 = self.clips@;
        let mut i: usize = 0;
        while i < self.clips.len() && self.clips[i].id != clip_id
            invariant
                self == old(self),
                i <= self.clips@.len(),
                forall|j: int| 0 <= j < i ==> (#[trigger] self.clips@[j]).id != clip_id,
            decreases self.clips@.len() - i,
        {
            i = i + 1;
        }
        if i < self.clips.len() {
            let removed = self.clips.remove(i);
            proof {
                let rem = s0.remove(i as int);
                assert forall|a: int, b: int| 0 <= a < b < rem.len() implies rem[a].start_time_ms
                    <= rem[b].start_time_ms by {
                    if b < i {
                    } else if a >= i {
                        assert(rem[a] == s0[a + 1] && rem[b] == s0[b + 1]);
                    } else {
                        assert(rem[a] == s0[a] && rem[b] == s0[b + 1]);
                    }
                }
            }
            Some(removed)
        } else {
            None
        }
    }

    /// The first clip whose placement contains `time_ms`, on an enabled,
    /// unmuted track; `None` otherwise.
    pub fn get_clip_at_time(&self, time_ms: i64) -> (r: Option<&VideoClip>)
        requires
            self.valid(),
        ensures
            match r {
                Some(c) => {
                    &&& self.enabled && !self.muted
                    &&& exists|i: int|
                        {
                            &&& 0 <= i < self.clips@.len()
                            &&& *c == self.clips@[i]
                            &&& (#[trigger] self.clips@[i]).spec_contains_time(time_ms as int)
                            &&& forall|j: int|
                                0 <= j < i ==> !(#[trigger] self.clips@[j]).spec_contains_time(
                                    time_ms as int,
                                )
                        }
                },
                None => !self.enabled || self.muted || forall|i: int|
                    0 <= i < self.clips@.len() ==> !(#[trigger] self.clips@[i]).spec_contains_time(
                        time_ms as int,
                    ),
            },
    {
        if !self.enabled || self.muted {
            return None;
        }
        let mut i: usize = 0;
        while i < self.clips.len()
            invariant
                self.valid(),
                self.enabled,
                !self.muted,
                i <= self.clips@.len(),
                forall|j: int|
                    0 <= j < i ==> !(#[trigger] self.clips@[j]).spec_contains_time(time_ms as int),
            decreases self.clips@.len() - i,
        {
            if self.clips[i].contains_time(time_ms) {
                proof {
                    let w = i as int;
                    assert({
                        &&& 0 <= w < self.clips@.len()
                        &&& self.clips@[w] == self.clips@[w]
                        &&& self.clips@[w].spec_contains_time(time_ms as int)
                        &&& forall|j: int|
                            0 <= j < w ==> !(#[trigger] self.clips@[j]).spec_contains_time(
                                time_ms as int,
                            )
                    });
                }
                return Some(&self.clips[i]);
            }
            i = i + 1;
        }
        None
    }

    /// The first clip at or after index `from` containing `time_ms`, with
    /// its index; `None` when no later clip contains it.
    fn find_active_from(clips: &Vec<VideoClip>, time_ms: i64, from: usize) -> (r: Option<usize>)
        requires
            from <= clips@.len(),
            forall|i: int| 0 <= i < clips@.len() ==> (#[trigger] clips@[i]).valid(),
        ensures
            match r {
                Some(i) => {
                    &&& from <= i < clips@.len()
                    &&& first_active_from(clips@, time_ms as int, from as int) == i
                    &&& clips@[i as int].spec_contains_time(time_ms as int)
                },
                None => first_active_from(clips@, time_ms as int, from as int) == -1,
            },
    {
        let mut i: usize = from;
        while i < clips.len()
            invariant
                from <= i <= clips@.len(),
                forall|k: int| 0 <= k < clips@.len() ==> (#[trigger] clips@[k]).valid(),
                forall|j: int|
                    from <= j < i ==> !(#[trigger] clips@[j]).spec_contains_time(time_ms as int),
            decreases clips@.len() - i,
        {
            if clips[i].contains_time(time_ms) {
                proof {
                    lemma_first_active_skip(clips@, time_ms as int, from as int, i as int);
                }
                return Some(i);
            }
            i = i + 1;
        }
        proof {
            lemma_first_active_skip(clips@, time_ms as int, from as int, clips@.len() as int);
        }
        None
    }

    /// A transition is two clips of this track overlapping at `time_ms`:
    /// the first active clip is outgoing, the second incoming, and the
    /// blend progress is the position of `time_ms` inside the overlap
    /// `[incoming.start, outgoing.end)`, in per-mille. A clip without a
    /// transition tag takes part as a crossfade.
    pub fn get_transition_at_time(&self, time_ms: i64) -> (r: Option<TransitionInfo>)
        requires
            self.valid(),
        ensures
            ({
                let t = time_ms as int;
                let f = first_active_from(self.clips@, t, 0);
                let g = first_active_from(self.clips@, t, f + 1);
                match r {
                    Some(info) => {
                        &&& self.enabled
                        &&& 0 <= f < g < self.clips@.len()
                        &&& info.outgoing@ == self.clips@[f]@
                        &&& info.incoming@ == self.clips@[g]@
                        &&& info.progress_permille == spec_transition_progress(
                            self.clips@[f],
                            self.clips@[g],
                            t,
                        )
                        &&& info.progress_permille < 1000
                        &&& info.transition_type == (if self.clips@[g].transition_type
                            == TransitionType::NoTransition {
                            TransitionType::Crossfade
                        } else {
                            self.clips@[g].transition_type
                        })
                    },
                    None => !self.enabled || f < 0 || g < 0,
                }
            }),
    {
        if !self.enabled {
            return None;
        }
        let n = self.clips.len();
        let f = match Self::find_active_from(&self.clips, time_ms, 0) {
            Some(f) => f,
            None => {
                return None;
            },
        };
        assert(f < n);
        let g = match Self::find_active_from(&self.clips, time_ms, f + 1) {
            Some(g) => g,
            None => {
                return None;
            },
        };
        let outgoing = &self.clips[f];
        let incoming = &self.clips[g];
        proof {
            assert(self.clips@[f as int].valid());
            assert(self.clips@[g as int].valid());
        }
        let overlap_start = incoming.start_time_ms;
        let overlap_end = outgoing.start_time_ms + outgoing.duration_ms;
        let overlap_duration = overlap_end - overlap_start;
        let progress64: i64 = (time_ms - overlap_start) * 1000 / overlap_duration;
        proof {
            let num = time_ms - overlap_start;
            let od = overlap_duration as int;
            assert(0 <= num < od);
            assert(0 <= num * 1000 / od < 1000) by (nonlinear_arith)
                requires
                    0 <= num < od,
            ;
        }
        let progress = progress64 as u32;
        let transition_type = if incoming.transition_type == TransitionType::NoTransition {
            TransitionType::Crossfade
        } else {
            incoming.transition_type
        };
        Some(
            TransitionInfo {
                outgoing: outgoing.duplicate(),
                incoming: incoming.duplicate(),
                progress_permille: progress,
                transition_type,
            },
        )
    }

    /// The first clip with the given id.
    pub fn get_clip_by_id(&self, clip_id: u64) -> (r: Option<&VideoClip>)
        ensures
            match r {
                Some(c) => exists|i: int|
                    {
                        &&& 0 <= i < self.clips@.len()
                        &&& *c == self.clips@[i]
                        &&& (#[trigger] self.clips@[i]).id == clip_id
                    },
                None => forall|i: int|
                    0 <= i < self.clips@.len() ==> (#[trigger] self.clips@[i]).id != clip_id,
            },
    {
        let mut i: usize = 0;
        while i < self.clips.len()
            invariant
                i <= self.clips@.len(),
                forall|j: int| 0 <= j < i ==> (#[trigger] self.clips@[j]).id != clip_id,
            decreases self.clips@.len() - i,
        {
            if self.clips[i].id == clip_id {
                return Some(&self.clips[i]);
            }
            i = i + 1;
        }
        None
    }
}

impl AudioTrack {
    /// Well-formedness: every clip is valid and the order is by start time.
    pub open spec fn valid(self) -> bool {
        &&& audio_sorted_by_start(self.clips@)
        &&& forall|i: int| 0 <= i < self.clips@.len() ==> #[trigger] self.clips@[i].valid()
    }

    pub fn new(id: u64, index: usize) -> (track: AudioTrack)
        ensures
            track.valid(),
            track.id == id,
            track.index == index,
            track.clips@.len() == 0,
            track.enabled,
            !track.muted,
    {
        AudioTrack { id, index, clips: Vec::new(), enabled: true, muted: false }
    }

    /// Insert a clip, keeping the order by start time.
    pub fn add_clip(&mut self, clip: AudioClip)
        requires
            old(self).valid(),
            clip.valid(),
        ensures
            final(self).valid(),
            final(self).id == old(self).id,
            final(self).index == old(self).index,
            final(self).enabled == old(self).enabled,
            final(self).muted == old(self).muted,
            audio_track_gained_clip(*old(self), *final(self), clip@),
            exists|i: int|
                {
                    &&& 0 <= i <= old(self).clips@.len()
                    &&& #[trigger] final(self).clips@ == old(self).clips@.insert(i, clip)
                    &&& forall|j: int|
                        0 <= j < i ==> (#[trigger] old(self).clips@[j]).start_time_ms
                            <= clip.start_time_ms
                    &&& i < old(self).clips@.len() ==> old(self).clips@[i as int].start_time_ms
                        > clip.start_time_ms
                },
    {
        let ghost s0 = self.clips@;
        let mut i: usize = 0;
        while i < self.clips.len() && self.clips[i].start_time_ms <= clip.start_time_ms
            invariant
                self == old(self),
                i <= self.clips@.len(),
                forall|j: int|
                    0 <= j < i ==> (#[trigger] self.clips@[j]).start_time_ms
                        <= clip.start_time_ms,
            decreases self.clips@.len() - i,
        {
            i = i + 1;
        }
        self.clips.insert(i, clip);
        proof {
            let ins = s0.insert(i as int, clip);
            assert forall|a: int, b: int| 0 <= a < b < ins.len() implies ins[a].start_time_ms
                <= ins[b].start_time_ms by {
                if a < i && b > i {
                    assert(s0[a].start_time_ms <= s0[b - 1].start_time_ms);
                } else {
                    assert(a > i ==> ins[a] == s0[a - 1]);
                }
            }
            assert(self.clips@[i as int] == clip);
            assert(self.clips@ == s0.insert(i as int, self.clips@[i as int]));
            assert(exists|k: int|
                {
                    &&& 0 <= k <= s0.len()
                    &&& #[trigger] self.clips@ == s0.insert(k, clip)
                    &&& forall|j: int|
                        0 <= j < k ==> (#[trigger] s0[j]).start_time_ms <= clip.start_time_ms
                    &&& k < s0.len() ==> s0[k as int].start_time_ms > clip.start_time_ms
                }) by {
                assert({
                    &&& 0 <= i as int <= s0.len()
                    &&& self.clips@ == s0.insert(i as int, clip)
                    &&& forall|j: int|
                        0 <= j < i as int ==> (#[trigger] s0[j]).start_time_ms
                            <= clip.start_time_ms
                    &&& i < s0.len() ==> s0[i as int].start_time_ms > clip.start_time_ms
                });
            }
        }
    }

    /// Remove the clip with the given id; `None` and no change when the
    /// track holds no such clip.
    #[verifier::rlimit(60)]
    pub fn remove_clip(&mut self, clip_id: u64) -> (r: Option<AudioClip>)
        requires
            old(self).valid(),
        ensures
            final(self).valid(),
            final(self).id == old(self).id,
            final(self).index == old(self).index,
            final(self).enabled == old(self).enabled,
            final(self).muted == old(self).muted,
            r is Some ==> audio_track_removed_clip(*old(self), *final(self), clip_id),
            match r {
                Some(c) => exists|i: int|
                    {
                        &&& 0 <= i < old(self).clips@.len()
                        &&& c == old(self).clips@[i]
                        &&& (#[trigger] old(self).clips@[i]).id == clip_id
                        &&& forall|j: int| 0 <= j < i ==> old(self).clips@[j].id != clip_id
                        &&& final(self).clips@ == old(self).clips@.remove(i)
                    },
                None => {
                    &&& final(self).clips@ == old(self).clips@
                    &&& forall|i: int|
                        0 <= i < old(self).clips@.len() ==> (#[trigger] old(
                            self,
                        ).clips@[i]).id != clip_id
                },
            },
    {
        let ghost s0 = self.clips@;
        let mut i: usize = 0;
        while i < self.clips.len() && self.clips[i].id != clip_id
            invariant
                self == old(self),
                i <= self.clips@.len(),
                forall|j: int| 0 <= j < i ==> (#[trigger] self.clips@[j]).id != clip_id,
            decreases self.clips@.len() - i,
        {
            i = i + 1;
        }
        if i < self.clips.len() {
            let removed = self.clips.remove(i);
            proof {
                let rem = s0.remove(i as int);
                assert forall|a: int, b: int| 0 <= a < b < rem.len() implies rem[a].start_time_ms
                    <= rem[b].start_time_ms by {
                    if b < i {
                    } else if a >= i {
                        assert(rem[a] == s0[a + 1] && rem[b] == s0[b + 1]);
                    } else {
                        assert(rem[a] == s0[a] && rem[b] == s0[b + 1]);
                    }
                }
            }
            Some(removed)
        } else {
            None
        }
    }

    /// All clips sounding at `time_ms`, in track order; empty when the
    /// track is disabled or muted.
    pub fn get_clips_at_time(&self, time_ms: i64) -> (r: Vec<AudioClip>)
        requires
            self.valid(),
        ensures
            self.enabled && !self.muted ==> audio_views(r@) == active_audio_views(
                self.clips@,
                time_ms as int,
            ),
            !(self.enabled && !self.muted) ==> r@.len() == 0,
            forall|j: int| 0 <= j < r@.len() ==> (#[trigger] r@[j]).valid(),
    {
        let mut out: Vec<AudioClip> = Vec::new();
        if !self.enabled || self.muted {
            return out;
        }
        let mut i: usize = 0;
        while i < self.clips.len()
            invariant
                self.valid(),
                self.enabled,
                !self.muted,
                i <= self.clips@.len(),
                audio_views(out@) == active_audio_views(
                    self.clips@.take(i as int),
                    time_ms as int,
                ),
                forall|j: int| 0 <= j < out@.len() ==> (#[trigger] out@[j]).valid(),
            decreases self.clips@.len() - i,
        {
            proof {
                lemma_active_audio_take_step(self.clips@, time_ms as int, i as int);
            }
            if self.clips[i].contains_time(time_ms) {
                let ghost out0 = out@;
                out.push(self.clips[i].duplicate());
                proof {
                    lemma_audio_views_push(out0, out@.last());
                    assert(out0.push(out@.last()) =~= out@);
                    assert(audio_views(out@) =~= audio_views(out0).push(
                        self.clips@[i as int]@,
                    ));
                }
            }
            i = i + 1;
        }
        proof {
            assert(self.clips@.take(self.clips@.len() as int) =~= self.clips@);
        }
        out
    }
}

} // verus!
