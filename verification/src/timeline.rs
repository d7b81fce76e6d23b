//! The timeline: ordered video and audio tracks, clip management, and
//! queries by time. Audio sources at a time include the audio clips and
//! the embedded audio of active video clips.

use vstd::prelude::*;
use crate::clip::{AudioClip, AudioClipView, MAX_TIME_MS, TransitionType, VideoClip, VideoClipView};
use crate::track::{
    active_audio_views, audio_track_gained_clip, audio_track_removed_clip, audio_views,
    first_active_from, lemma_audio_views_add, lemma_first_active_skip, lemma_video_views_push,
    video_track_gained_clip, video_track_removed_clip, video_views, AudioTrack, VideoTrack,
};

verus! {

/// A project timeline: output size, frame rate, and the tracks.
#[derive(Debug, Clone)]
pub struct Timeline {
    pub width: u32,
    pub height: u32,
    /// Output frame rate in frames per second.
    pub fps: u32,
    pub video_tracks: Vec<VideoTrack>,
    pub audio_tracks: Vec<AudioTrack>,
    pub next_clip_id: u64,
    pub next_track_id: u64,
}

/// The abstract value of the clip built by `add_video_clip`.
pub open spec fn fresh_video_clip_view(
    id: u64,
    path: Seq<char>,
    start_time_ms: i64,
    duration_ms: i64,
) -> VideoClipView {
    VideoClipView {
        id,
        file_path: path,
        proxy_path: None,
        start_time_ms,
        duration_ms,
        trim_start_ms: 0,
        trim_end_ms: duration_ms,
        speed_permille: 1000,
        volume_permille: 1000,
        transition_type: TransitionType::NoTransition,
    }
}

/// The abstract value of the clip built by `add_audio_clip`.
pub open spec fn fresh_audio_clip_view(
    id: u64,
    path: Seq<char>,
    start_time_ms: i64,
    duration_ms: i64,
) -> AudioClipView {
    AudioClipView {
        id,
        file_path: path,
        start_time_ms,
        duration_ms,
        trim_start_ms: 0,
        trim_end_ms: duration_ms,
        speed_permille: 1000,
        volume_permille: 1000,
        fade_in_ms: 0,
        fade_out_ms: 0,
    }
}

/// Two track sequences that agree everywhere but at index `i`.
pub open spec fn video_tracks_equal_except(s1: Seq<VideoTrack>, s2: Seq<VideoTrack>, i: int) -> bool {
    &&& s1.len() == s2.len()
    &&& forall|j: int| 0 <= j < s1.len() && j != i ==> s1[j] == s2[j]
}

/// Two track sequences that agree everywhere but at index `i`.
pub open spec fn audio_tracks_equal_except(s1: Seq<AudioTrack>, s2: Seq<AudioTrack>, i: int) -> bool {
    &&& s1.len() == s2.len()
    &&& forall|j: int| 0 <= j < s1.len() && j != i ==> s1[j] == s2[j]
}

/// The clip a track shows at time `t`: its first clip containing `t`, on
/// an enabled, unmuted track.
pub open spec fn spec_track_clip_at(track: VideoTrack, t: int) -> Option<VideoClip> {
    if track.enabled && !track.muted && first_active_from(track.clips@, t, 0) >= 0 {
        Some(track.clips@[first_active_from(track.clips@, t, 0)])
    } else {
        None
    }
}

/// The abstract values of the clips the video tracks show at time `t`, in
/// track order (at most one per track).
pub open spec fn active_video_views(tracks: Seq<VideoTrack>, t: int) -> Seq<VideoClipView>
    decreases tracks.len(),
{
    if tracks.len() == 0 {
        Seq::empty()
    } else {
        active_video_views(tracks.drop_last(), t) + match spec_track_clip_at(tracks.last(), t) {
            Some(c) => seq![c@],
            None => Seq::empty(),
        }
    }
}

/// The abstract values of the audio clips all audio tracks sound at time
/// `t`, in track order.
pub open spec fn all_active_audio_views(tracks: Seq<AudioTrack>, t: int) -> Seq<AudioClipView>
    decreases tracks.len(),
{
    if tracks.len() == 0 {
        Seq::empty()
    } else {
        all_active_audio_views(tracks.drop_last(), t) + (if tracks.last().enabled
            && !tracks.last().muted {
            active_audio_views(tracks.last().clips@, t)
        } else {
            Seq::empty()
        })
    }
}

/// Extending the scanned prefix of tracks by one track adds that track's
/// shown clip, if any.
pub proof fn lemma_active_video_take_step(s: Seq<VideoTrack>, t: int, i: int)
    requires
        0 <= i < s.len(),
    ensures
        active_video_views(s.take(i + 1), t) == active_video_views(s.take(i), t) + (
        match spec_track_clip_at(s[i], t) {
            Some(c) => seq![c@],
            None => Seq::empty(),
        }),
{
    let p1 = s.take(i + 1);
    assert(p1.drop_last() =~= s.take(i));
    assert(p1.last() == s[i]);
}

/// Extending the scanned prefix of audio tracks by one track adds that
/// track's sounding clips.
pub proof fn lemma_all_active_audio_take_step(s: Seq<AudioTrack>, t: int, i: int)
    requires
        0 <= i < s.len(),
    ensures
        all_active_audio_views(s.take(i + 1), t) == all_active_audio_views(s.take(i), t) + (if s[
            i
        ].enabled && !s[i].muted {
            active_audio_views(s[i].clips@, t)
        } else {
            Seq::empty()
        }),
{
    let p1 = s.take(i + 1);
    assert(p1.drop_last() =~= s.take(i));
    assert(p1.last() == s[i]);
}

/// A video clip heard as an audio source: same placement, trim, volume and
/// speed; no fades.
pub open spec fn video_as_audio_view(c: VideoClipView) -> AudioClipView {
    AudioClipView {
        id: c.id,
        file_path: c.file_path,
        start_time_ms: c.start_time_ms,
        duration_ms: c.duration_ms,
        trim_start_ms: c.trim_start_ms,
        trim_end_ms: c.trim_end_ms,
        speed_permille: c.speed_permille,
        volume_permille: c.volume_permille,
        fade_in_ms: 0,
        fade_out_ms: 0,
    }
}

impl Timeline {
    /// Well-formedness: tracks are valid and stored in index order.
    pub open spec fn valid(self) -> bool {
        &&& forall|i: int|
            0 <= i < self.video_tracks@.len() ==> (#[trigger] self.video_tracks@[i]).valid()
        &&& forall|i: int|
            0 <= i < self.video_tracks@.len() ==> (#[trigger] self.video_tracks@[i]).index == i
        &&& forall|i: int|
            0 <= i < self.audio_tracks@.len() ==> (#[trigger] self.audio_tracks@[i]).valid()
        &&& forall|i: int|
            0 <= i < self.audio_tracks@.len() ==> (#[trigger] self.audio_tracks@[i]).index == i
    }

    pub fn new(width: u32, height: u32, fps: u32) -> (tl: Timeline)
        ensures
            tl.valid(),
            tl.width == width,
            tl.height == height,
            tl.fps == fps,
            tl.video_tracks@.len() == 0,
            tl.audio_tracks@.len() == 0,
            tl.next_clip_id == 1,
            tl.next_track_id == 1,
    {
        Timeline {
            width,
            height,
            fps,
            video_tracks: Vec::new(),
            audio_tracks: Vec::new(),
            next_clip_id: 1,
            next_track_id: 1,
        }
    }

    /// Append a new empty video track; returns its id.
    pub fn add_video_track(&mut self) -> (r: u64)
        requires
            old(self).valid(),
            old(self).next_track_id < u64::MAX,
        ensures
            final(self).valid(),
            r == old(self).next_track_id,
            final(self).next_track_id == old(self).next_track_id + 1,
            final(self).next_clip_id == old(self).next_clip_id,
            final(self).width == old(self).width,
            final(self).height == old(self).height,
            final(self).fps == old(self).fps,
            final(self).audio_tracks@ == old(self).audio_tracks@,
            final(self).video_tracks@.len() == old(self).video_tracks@.len() + 1,
            final(self).video_tracks@.drop_last() == old(self).video_tracks@,
            ({
                let t = final(self).video_tracks@.last();
                &&& t.id == r
                &&& t.index == old(self).video_tracks@.len()
                &&& t.clips@.len() == 0
                &&& t.enabled
                &&& !t.muted
            }),
    {
        let id = self.next_track_id;
        self.next_track_id = self.next_track_id + 1;
        let index = self.video_tracks.len();
        self.video_tracks.push(VideoTrack::new(id, index));
        proof {
            assert(final(self).video_tracks@.drop_last() =~= old(self).video_tracks@);
        }
        id
    }

    /// Append a new empty audio track; returns its id.
    pub fn add_audio_track(&mut self) -> (r: u64)
        requires
            old(self).valid(),
            old(self).next_track_id < u64::MAX,
        ensures
            final(self).valid(),
            r == old(self).next_track_id,
            final(self).next_track_id == old(self).next_track_id + 1,
            final(self).next_clip_id == old(self).next_clip_id,
            final(self).width == old(self).width,
            final(self).height == old(self).height,
            final(self).fps == old(self).fps,
            final(self).video_tracks@ == old(self).video_tracks@,
            final(self).audio_tracks@.len() == old(self).audio_tracks@.len() + 1,
            final(self).audio_tracks@.drop_last() == old(self).audio_tracks@,
            ({
                let t = final(self).audio_tracks@.last();
                &&& t.id == r
                &&& t.index == old(self).audio_tracks@.len()
                &&& t.clips@.len() == 0
                &&& t.enabled
                &&& !t.muted
            }),
    {
        let id = self.next_track_id;
        self.next_track_id = self.next_track_id + 1;
        let index = self.audio_tracks.len();
        self.audio_tracks.push(AudioTrack::new(id, index));
        proof {
            assert(final(self).audio_tracks@.drop_last() =~= old(self).audio_tracks@);
        }
        id
    }

    /// Add a clip to the video track with the given id; returns the new
    /// clip's id, or `None` (and no change) when no track has that id.
    pub fn add_video_clip(
        &mut self,
        track_id: u64,
        file_path: String,
        start_time_ms: i64,
        duration_ms: i64,
    ) -> (r: Option<u64>)
        requires
            old(self).valid(),
            old(self).next_clip_id < u64::MAX,
            0 <= start_time_ms <= MAX_TIME_MS,
            0 < duration_ms <= MAX_TIME_MS,
        ensures
            final(self).valid(),
            final(self).width == old(self).width,
            final(self).height == old(self).height,
            final(self).fps == old(self).fps,
            final(self).next_track_id == old(self).next_track_id,
            final(self).audio_tracks@ == old(self).audio_tracks@,
            match r {
                Some(id) => {
                    &&& id == old(self).next_clip_id
                    &&& final(self).next_clip_id == old(self).next_clip_id + 1
                    &&& exists|i: int|
                        {
                            &&& 0 <= i < old(self).video_tracks@.len()
                            &&& (#[trigger] old(self).video_tracks@[i]).id == track_id
                            &&& forall|j: int|
                                0 <= j < i ==> old(self).video_tracks@[j].id != track_id
                            &&& video_tracks_equal_except(
                                old(self).video_tracks@,
                                final(self).video_tracks@,
                                i,
                            )
                            &&& video_track_gained_clip(
                                old(self).video_tracks@[i],
                                final(self).video_tracks@[i],
                                fresh_video_clip_view(id, file_path@, start_time_ms, duration_ms),
                            )
                        }
                },
                None => {
                    &&& final(self).video_tracks@ == old(self).video_tracks@
                    &&& final(self).next_clip_id == old(self).next_clip_id
                    &&& forall|i: int|
                        0 <= i < old(self).video_tracks@.len() ==> (#[trigger] old(
                            self,
                        ).video_tracks@[i]).id != track_id
                },
            },
    {
        let n = self.video_tracks.len();
        let mut i: usize = 0;
        while i < n
            invariant
                self == old(self),
                self.valid(),
                self.next_clip_id < u64::MAX,
                0 <= start_time_ms <= MAX_TIME_MS,
                0 < duration_ms <= MAX_TIME_MS,
                n == self.video_tracks@.len(),
                i <= n,
                forall|j: int| 0 <= j < i ==> (#[trigger] self.video_tracks@[j]).id != track_id,
            decreases n - i,
        {
            if self.video_tracks[i].id == track_id {
                let clip_id = self.next_clip_id;
                self.next_clip_id = self.next_clip_id + 1;
                let clip = VideoClip::new(clip_id, file_path, start_time_ms, duration_ms, None);
                let mut track = self.video_tracks.remove(i);
                track.add_clip(clip);
                self.video_tracks.insert(i, track);
                proof {
                    assert(final(self).video_tracks@ =~= old(self).video_tracks@.update(
                        i as int,
                        final(self).video_tracks@[i as int],
                    ));
                }
                return Some(clip_id);
            }
            i = i + 1;
        }
        None
    }

    /// Add a clip to the audio track with the given id; returns the new
    /// clip's id, or `None` (and no change) when no track has that id.
    pub fn add_audio_clip(
        &mut self,
        track_id: u64,
        file_path: String,
        start_time_ms: i64,
        duration_ms: i64,
    ) -> (r: Option<u64>)
        requires
            old(self).valid(),
            old(self).next_clip_id < u64::MAX,
            0 <= start_time_ms <= MAX_TIME_MS,
            0 < duration_ms <= MAX_TIME_MS,
        ensures
            final(self).valid(),
            final(self).width == old(self).width,
            final(self).height == old(self).height,
            final(self).fps == old(self).fps,
            final(self).next_track_id == old(self).next_track_id,
            final(self).video_tracks@ == old(self).video_tracks@,
            match r {
                Some(id) => {
                    &&& id == old(self).next_clip_id
                    &&& final(self).next_clip_id == old(self).next_clip_id + 1
                    &&& exists|i: int|
                        {
                            &&& 0 <= i < old(self).audio_tracks@.len()
                            &&& (#[trigger] old(self).audio_tracks@[i]).id == track_id
                            &&& forall|j: int|
                                0 <= j < i ==> old(self).audio_tracks@[j].id != track_id
                            &&& audio_tracks_equal_except(
                                old(self).audio_tracks@,
                                final(self).audio_tracks@,
                                i,
                            )
                            &&& audio_track_gained_clip(
                                old(self).audio_tracks@[i],
                                final(self).audio_tracks@[i],
                                fresh_audio_clip_view(id, file_path@, start_time_ms, duration_ms),
                            )
                        }
                },
                None => {
                    &&& final(self).audio_tracks@ == old(self).audio_tracks@
                    &&& final(self).next_clip_id == old(self).next_clip_id
                    &&& forall|i: int|
                        0 <= i < old(self).audio_tracks@.len() ==> (#[trigger] old(
                            self,
                        ).audio_tracks@[i]).id != track_id
                },
            },
    {
        let n = self.audio_tracks.len();
        let mut i: usize = 0;
        while i < n
            invariant
                self == old(self),
                self.valid(),
                self.next_clip_id < u64::MAX,
                0 <= start_time_ms <= MAX_TIME_MS,
                0 < duration_ms <= MAX_TIME_MS,
                n == self.audio_tracks@.len(),
                i <= n,
                forall|j: int| 0 <= j < i ==> (#[trigger] self.audio_tracks@[j]).id != track_id,
            decreases n - i,
        {
            if self.audio_tracks[i].id == track_id {
                let clip_id = self.next_clip_id;
                self.next_clip_id = self.next_clip_id + 1;
                let clip = AudioClip::new(clip_id, file_path, start_time_ms, duration_ms);
                let mut track = self.audio_tracks.remove(i);
                track.add_clip(clip);
                self.audio_tracks.insert(i, track);
                proof {
                    assert(final(self).audio_tracks@ =~= old(self).audio_tracks@.update(
                        i as int,
                        final(self).audio_tracks@[i as int],
                    ));
                }
                return Some(clip_id);
            }
            i = i + 1;
        }
        None
    }

    /// Remove the clip with the given id from the video track with the
    /// given id; whether a clip was removed.
    pub fn remove_video_clip(&mut self, track_id: u64, clip_id: u64) -> (r: bool)
        requires
            old(self).valid(),
        ensures
            final(self).valid(),
            final(self).width == old(self).width,
            final(self).height == old(self).height,
            final(self).fps == old(self).fps,
            final(self).next_clip_id == old(self).next_clip_id,
            final(self).next_track_id == old(self).next_track_id,
            final(self).audio_tracks@ == old(self).audio_tracks@,
            (forall|i: int|
                0 <= i < old(self).video_tracks@.len() ==> (#[trigger] old(
                    self,
                ).video_tracks@[i]).id != track_id) ==> !r && final(self).video_tracks@ == old(
                self,
            ).video_tracks@,
            r ==> exists|i: int|
                {
                    &&& 0 <= i < old(self).video_tracks@.len()
                    &&& (#[trigger] old(self).video_tracks@[i]).id == track_id
                    &&& forall|j: int| 0 <= j < i ==> old(self).video_tracks@[j].id != track_id
                    &&& video_tracks_equal_except(
                        old(self).video_tracks@,
                        final(self).video_tracks@,
                        i,
                    )
                    &&& video_track_removed_clip(
                        old(self).video_tracks@[i],
                        final(self).video_tracks@[i],
                        clip_id,
                    )
                },
    {
        let n = self.video_tracks.len();
        let mut i: usize = 0;
        while i < n
            invariant
                self == old(self),
                self.valid(),
                n == self.video_tracks@.len(),
                i <= n,
                forall|j: int| 0 <= j < i ==> (#[trigger] self.video_tracks@[j]).id != track_id,
            decreases n - i,
        {
            if self.video_tracks[i].id == track_id {
                let mut track = self.video_tracks.remove(i);
                let removed = track.remove_clip(clip_id);
                self.video_tracks.insert(i, track);
                proof {
                    assert(final(self).video_tracks@ =~= old(self).video_tracks@.update(
                        i as int,
                        final(self).video_tracks@[i as int],
                    ));
                }
                return removed.is_some();
            }
            i = i + 1;
        }
        false
    }

    /// Remove the clip with the given id from the audio track with the
    /// given id; whether a clip was removed.
    pub fn remove_audio_clip(&mut self, track_id: u64, clip_id: u64) -> (r: bool)
        requires
            old(self).valid(),
        ensures
            final(self).valid(),
            final(self).width == old(self).width,
            final(self).height == old(self).height,
            final(self).fps == old(self).fps,
            final(self).next_clip_id == old(self).next_clip_id,
            final(self).next_track_id == old(self).next_track_id,
            final(self).video_tracks@ == old(self).video_tracks@,
            (forall|i: int|
                0 <= i < old(self).audio_tracks@.len() ==> (#[trigger] old(
                    self,
                ).audio_tracks@[i]).id != track_id) ==> !r && final(self).audio_tracks@ == old(
                self,
            ).audio_tracks@,
            r ==> exists|i: int|
                {
                    &&& 0 <= i < old(self).audio_tracks@.len()
                    &&& (#[trigger] old(self).audio_tracks@[i]).id == track_id
                    &&& forall|j: int| 0 <= j < i ==> old(self).audio_tracks@[j].id != track_id
                    &&& audio_tracks_equal_except(
                        old(self).audio_tracks@,
                        final(self).audio_tracks@,
                        i,
                    )
                    &&& audio_track_removed_clip(
                        old(self).audio_tracks@[i],
                        final(self).audio_tracks@[i],
                        clip_id,
                    )
                },
    {
        let n = self.audio_tracks.len();
        let mut i: usize = 0;
        while i < n
            invariant
                self == old(self),
                self.valid(),
                n == self.audio_tracks@.len(),
                i <= n,
                forall|j: int| 0 <= j < i ==> (#[trigger] self.audio_tracks@[j]).id != track_id,
            decreases n - i,
        {
            if self.audio_tracks[i].id == track_id {
                let mut track = self.audio_tracks.remove(i);
                let removed = track.remove_clip(clip_id);
                self.audio_tracks.insert(i, track);
                proof {
                    assert(final(self).audio_tracks@ =~= old(self).audio_tracks@.update(
                        i as int,
                        final(self).audio_tracks@[i as int],
                    ));
                }
                return removed.is_some();
            }
            i = i + 1;
        }
        false
    }

    /// The timeline's total length: the greatest clip end time over all
    /// tracks, video and audio; 0 for an empty timeline.
    pub fn duration_ms(&self) -> (r: i64)
        requires
            self.valid(),
        ensures
            r >= 0,
            forall|i: int, j: int|
                0 <= i < self.video_tracks@.len() && 0 <= j
                    < (#[trigger] self.video_tracks@[i]).clips@.len() ==> (
                #[trigger] self.video_tracks@[i].clips@[j]).spec_end_time_ms() <= r,
            forall|i: int, j: int|
                0 <= i < self.audio_tracks@.len() && 0 <= j
                    < (#[trigger] self.audio_tracks@[i]).clips@.len() ==> (
                #[trigger] self.audio_tracks@[i].clips@[j]).spec_end_time_ms() <= r,
            r != 0 ==> (exists|i: int, j: int|
                0 <= i < self.video_tracks@.len() && 0 <= j
                    < (#[trigger] self.video_tracks@[i]).clips@.len() && (
                #[trigger] self.video_tracks@[i].clips@[j]).spec_end_time_ms() == r) || (exists|
                i: int,
                j: int,
            |
                0 <= i < self.audio_tracks@.len() && 0 <= j
                    < (#[trigger] self.audio_tracks@[i]).clips@.len() && (
                #[trigger] self.audio_tracks@[i].clips@[j]).spec_end_time_ms() == r),
    {
        let mut max_end: i64 = 0;
        let mut i: usize = 0;
        while i < self.video_tracks.len()
            invariant
                self.valid(),
                i <= self.video_tracks@.len(),
                max_end >= 0,
                forall|a: int, b: int|
                    0 <= a < i && 0 <= b < (#[trigger] self.video_tracks@[a]).clips@.len() ==> (
                    #[trigger] self.video_tracks@[a].clips@[b]).spec_end_time_ms() <= max_end,
                max_end != 0 ==> exists|a: int, b: int|
                    0 <= a < i && 0 <= b < (#[trigger] self.video_tracks@[a]).clips@.len() && (
                    #[trigger] self.video_tracks@[a].clips@[b]).spec_end_time_ms() == max_end,
            decreases self.video_tracks@.len() - i,
        {
            let track = &self.video_tracks[i];
            let mut j: usize = 0;
            while j < track.clips.len()
                invariant
                    self.valid(),
                    i < self.video_tracks@.len(),
                    track == &self.video_tracks@[i as int],
                    j <= track.clips@.len(),
                    max_end >= 0,
                    forall|a: int, b: int|
                        0 <= a < i && 0 <= b < (#[trigger] self.video_tracks@[a]).clips@.len()
                            ==> (#[trigger] self.video_tracks@[a].clips@[b]).spec_end_time_ms()
                            <= max_end,
                    forall|b: int|
                        0 <= b < j ==> (#[trigger] track.clips@[b]).spec_end_time_ms() <= max_end,
                    max_end != 0 ==> (exists|a: int, b: int|
                        0 <= a < i && 0 <= b < (#[trigger] self.video_tracks@[a]).clips@.len()
                            && (#[trigger] self.video_tracks@[a].clips@[b]).spec_end_time_ms()
                            == max_end) || (exists|b: int|
                        0 <= b < j && (#[trigger] track.clips@[b]).spec_end_time_ms() == max_end),
                decreases track.clips@.len() - j,
            {
                let end = track.clips[j].end_time_ms();
                if end > max_end {
                    max_end = end;
                }
                j = j + 1;
            }
            i = i + 1;
        }
        let ghost video_done = max_end;
        let mut i: usize = 0;
        while i < self.audio_tracks.len()
            invariant
                self.valid(),
                i <= self.audio_tracks@.len(),
                max_end >= 0,
                forall|a: int, b: int|
                    0 <= a < self.video_tracks@.len() && 0 <= b < (
                    #[trigger] self.video_tracks@[a]).clips@.len() ==> (
                    #[trigger] self.video_tracks@[a].clips@[b]).spec_end_time_ms() <= max_end,
                forall|a: int, b: int|
                    0 <= a < i && 0 <= b < (#[trigger] self.audio_tracks@[a]).clips@.len() ==> (
                    #[trigger] self.audio_tracks@[a].clips@[b]).spec_end_time_ms() <= max_end,
                max_end != 0 ==> (exists|a: int, b: int|
                    0 <= a < self.video_tracks@.len() && 0 <= b < (
                    #[trigger] self.video_tracks@[a]).clips@.len() && (
                    #[trigger] self.video_tracks@[a].clips@[b]).spec_end_time_ms() == max_end) || (
                exists|a: int, b: int|
                    0 <= a < i && 0 <= b < (#[trigger] self.audio_tracks@[a]).clips@.len() && (
                    #[trigger] self.audio_tracks@[a].clips@[b]).spec_end_time_ms() == max_end),
            decreases self.audio_tracks@.len() - i,
        {
            let track = &self.audio_tracks[i];
            let mut j: usize = 0;
            while j < track.clips.len()
                invariant
                    self.valid(),
                    i < self.audio_tracks@.len(),
                    track == &self.audio_tracks@[i as int],
                    j <= track.clips@.len(),
                    max_end >= 0,
                    forall|a: int, b: int|
                        0 <= a < self.video_tracks@.len() && 0 <= b < (
                        #[trigger] self.video_tracks@[a]).clips@.len() ==> (
                        #[trigger] self.video_tracks@[a].clips@[b]).spec_end_time_ms() <= max_end,
                    forall|a: int, b: int|
                        0 <= a < i && 0 <= b < (#[trigger] self.audio_tracks@[a]).clips@.len()
                            ==> (#[trigger] self.audio_tracks@[a].clips@[b]).spec_end_time_ms()
                            <= max_end,
                    forall|b: int|
                        0 <= b < j ==> (#[trigger] track.clips@[b]).spec_end_time_ms() <= max_end,
                    max_end != 0 ==> (exists|a: int, b: int|
                        0 <= a < self.video_tracks@.len() && 0 <= b < (
                        #[trigger] self.video_tracks@[a]).clips@.len() && (
                        #[trigger] self.video_tracks@[a].clips@[b]).spec_end_time_ms() == max_end)
                        || (exists|a: int, b: int|
                        0 <= a < i && 0 <= b < (#[trigger] self.audio_tracks@[a]).clips@.len()
                            && (#[trigger] self.audio_tracks@[a].clips@[b]).spec_end_time_ms()
                            == max_end) || (exists|b: int|
                        0 <= b < j && (#[trigger] track.clips@[b]).spec_end_time_ms() == max_end),
                decreases track.clips@.len() - j,
            {
                let end = track.clips[j].end_time_ms();
                if end > max_end {
                    max_end = end;
                }
                j = j + 1;
            }
            i = i + 1;
        }
        max_end
    }

    /// Mute or unmute the track with the given id, looking first among the
    /// video tracks, then the audio tracks; whether a track was found.
    pub fn set_track_muted(&mut self, track_id: u64, muted: bool) -> (r: bool)
        requires
            old(self).valid(),
        ensures
            final(self).valid(),
            final(self).width == old(self).width,
            final(self).height == old(self).height,
            final(self).fps == old(self).fps,
            final(self).next_clip_id == old(self).next_clip_id,
            final(self).next_track_id == old(self).next_track_id,
            !r ==> {
                &&& final(self).video_tracks@ == old(self).video_tracks@
                &&& final(self).audio_tracks@ == old(self).audio_tracks@
                &&& forall|i: int|
                    0 <= i < old(self).video_tracks@.len() ==> (#[trigger] old(
                        self,
                    ).video_tracks@[i]).id != track_id
                &&& forall|i: int|
                    0 <= i < old(self).audio_tracks@.len() ==> (#[trigger] old(
                        self,
                    ).audio_tracks@[i]).id != track_id
            },
            r ==> ({
                ||| ({
                    &&& final(self).audio_tracks@ == old(self).audio_tracks@
                    &&& exists|i: int|
                        {
                            &&& 0 <= i < old(self).video_tracks@.len()
                            &&& (#[trigger] old(self).video_tracks@[i]).id == track_id
                            &&& forall|j: int|
                                0 <= j < i ==> old(self).video_tracks@[j].id != track_id
                            &&& video_tracks_equal_except(
                                old(self).video_tracks@,
                                final(self).video_tracks@,
                                i,
                            )
                            &&& final(self).video_tracks@[i] == VideoTrack {
                                muted,
                                ..old(self).video_tracks@[i]
                            }
                        }
                })
                ||| ({
                    &&& final(self).video_tracks@ == old(self).video_tracks@
                    &&& (forall|i: int|
                        0 <= i < old(self).video_tracks@.len() ==> (#[trigger] old(
                            self,
                        ).video_tracks@[i]).id != track_id)
                    &&& exists|i: int|
                        {
                            &&& 0 <= i < old(self).audio_tracks@.len()
                            &&& (#[trigger] old(self).audio_tracks@[i]).id == track_id
                            &&& forall|j: int|
                                0 <= j < i ==> old(self).audio_tracks@[j].id != track_id
                            &&& audio_tracks_equal_except(
                                old(self).audio_tracks@,
                                final(self).audio_tracks@,
                                i,
                            )
                            &&& final(self).audio_tracks@[i] == AudioTrack {
                                muted,
                                ..old(self).audio_tracks@[i]
                            }
                        }
                })
            }),
    {
        let n = self.video_tracks.len();
        let mut i: usize = 0;
        while i < n
            invariant
                self == old(self),
                self.valid(),
                n == self.video_tracks@.len(),
                i <= n,
                forall|j: int| 0 <= j < i ==> (#[trigger] self.video_tracks@[j]).id != track_id,
            decreases n - i,
        {
            if self.video_tracks[i].id == track_id {
                let mut track = self.video_tracks.remove(i);
                track.muted = muted;
                self.video_tracks.insert(i, track);
                proof {
                    assert(final(self).video_tracks@ =~= old(self).video_tracks@.update(
                        i as int,
                        final(self).video_tracks@[i as int],
                    ));
                }
                return true;
            }
            i = i + 1;
        }
        let m = self.audio_tracks.len();
        let mut i: usize = 0;
        while i < m
            invariant
                self == old(self),
                self.valid(),
                m == self.audio_tracks@.len(),
                i <= m,
                forall|j: int|
                    0 <= j < old(self).video_tracks@.len() ==> (#[trigger] old(
                        self,
                    ).video_tracks@[j]).id != track_id,
                forall|j: int| 0 <= j < i ==> (#[trigger] self.audio_tracks@[j]).id != track_id,
            decreases m - i,
        {
            if self.audio_tracks[i].id == track_id {
                let mut track = self.audio_tracks.remove(i);
                track.muted = muted;
                self.audio_tracks.insert(i, track);
                proof {
                    assert(final(self).audio_tracks@ =~= old(self).audio_tracks@.update(
                        i as int,
                        final(self).audio_tracks@[i as int],
                    ));
                }
                return true;
            }
            i = i + 1;
        }
        false
    }

    /// The clips the video tracks show at `time_ms`, one per enabled,
    /// unmuted track that has a clip there, in track order.
    pub fn get_video_clips_at_time(&self, time_ms: i64) -> (r: Vec<VideoClip>)
        requires
            self.valid(),
        ensures
            video_views(r@) == active_video_views(self.video_tracks@, time_ms as int),
            forall|j: int| 0 <= j < r@.len() ==> (#[trigger] r@[j]).valid(),
    {
        let mut out: Vec<VideoClip> = Vec::new();
        let mut i: usize = 0;
        while i < self.video_tracks.len()
            invariant
                self.valid(),
                i <= self.video_tracks@.len(),
                video_views(out@) == active_video_views(
                    self.video_tracks@.take(i as int),
                    time_ms as int,
                ),
                forall|j: int| 0 <= j < out@.len() ==> (#[trigger] out@[j]).valid(),
            decreases self.video_tracks@.len() - i,
        {
            let ghost t = time_ms as int;
            proof {
                lemma_active_video_take_step(self.video_tracks@, t, i as int);
            }
            let track = &self.video_tracks[i];
            match track.get_clip_at_time(time_ms) {
                Some(c) => {
                    proof {
                        let tr = self.video_tracks@[i as int];
                        let idx = choose|k: int|
                            {
                                &&& 0 <= k < tr.clips@.len()
                                &&& *c == tr.clips@[k]
                                &&& (#[trigger] tr.clips@[k]).spec_contains_time(t)
                                &&& forall|j: int|
                                    0 <= j < k ==> !(#[trigger] tr.clips@[j]).spec_contains_time(
                                        t,
                                    )
                            };
                        lemma_first_active_skip(tr.clips@, t, 0, idx);
                        assert(first_active_from(tr.clips@, t, idx) == idx);
                        assert(spec_track_clip_at(tr, t) == Some(tr.clips@[idx]));
                    }
                    let ghost out0 = out@;
                    out.push(c.duplicate());
                    proof {
                        lemma_video_views_push(out0, out@.last());
                        assert(out0.push(out@.last()) =~= out@);
                        assert(video_views(out@) =~= active_video_views(
                            self.video_tracks@.take(i as int + 1),
                            t,
                        ));
                    }
                },
                None => {
                    proof {
                        let tr = self.video_tracks@[i as int];
                        if tr.enabled && !tr.muted {
                            lemma_first_active_skip(tr.clips@, t, 0, tr.clips@.len() as int);
                            assert(spec_track_clip_at(tr, t) is None);
                        }
                        assert(video_views(out@) =~= active_video_views(
                            self.video_tracks@.take(i as int + 1),
                            t,
                        ));
                    }
                },
            }
            i = i + 1;
        }
        proof {
            assert(self.video_tracks@.take(self.video_tracks@.len() as int)
                =~= self.video_tracks@);
        }
        out
    }

    /// All audio clips the audio tracks sound at `time_ms`, in track order.
    pub fn get_audio_clips_at_time(&self, time_ms: i64) -> (r: Vec<AudioClip>)
        requires
            self.valid(),
        ensures
            audio_views(r@) == all_active_audio_views(self.audio_tracks@, time_ms as int),
            forall|j: int| 0 <= j < r@.len() ==> (#[trigger] r@[j]).valid(),
    {
        let mut out: Vec<AudioClip> = Vec::new();
        let mut i: usize = 0;
        while i < self.audio_tracks.len()
            invariant
                self.valid(),
                i <= self.audio_tracks@.len(),
                audio_views(out@) == all_active_audio_views(
                    self.audio_tracks@.take(i as int),
                    time_ms as int,
                ),
                forall|j: int| 0 <= j < out@.len() ==> (#[trigger] out@[j]).valid(),
            decreases self.audio_tracks@.len() - i,
        {
            let ghost t = time_ms as int;
            proof {
                lemma_all_active_audio_take_step(self.audio_tracks@, t, i as int);
            }
            let track = &self.audio_tracks[i];
            let mut part = track.get_clips_at_time(time_ms);
            let ghost out0 = out@;
            let ghost part0 = part@;
            out.append(&mut part);
            proof {
                assert(out@ == out0 + part0);
                lemma_audio_views_add(out0, part0);
                let tr = self.audio_tracks@[i as int];
                if !(tr.enabled && !tr.muted) {
                    assert(audio_views(part0) =~= Seq::<AudioClipView>::empty());
                }
                assert(audio_views(out@) =~= all_active_audio_views(
                    self.audio_tracks@.take(i as int + 1),
                    t,
                ));
            }
            i = i + 1;
        }
        proof {
            assert(self.audio_tracks@.take(self.audio_tracks@.len() as int)
                =~= self.audio_tracks@);
        }
        out
    }

    /// Every source that can sound at `time_ms`: the audio clips of the
    /// audio tracks, followed by the embedded audio of the video clips
    /// shown at that time, as audio clips without fades.
    pub fn get_all_audio_sources_at_time(&self, time_ms: i64) -> (r: Vec<AudioClip>)
        requires
            self.valid(),
        ensures
            audio_views(r@) == all_active_audio_views(self.audio_tracks@, time_ms as int)
                + active_video_views(self.video_tracks@, time_ms as int).map_values(
                |c: VideoClipView| video_as_audio_view(c),
            ),
            forall|j: int| 0 <= j < r@.len() ==> (#[trigger] r@[j]).valid(),
    {
        let ghost t = time_ms as int;
        let mut out = self.get_audio_clips_at_time(time_ms);
        let video_clips = self.get_video_clips_at_time(time_ms);
        let ghost audio_part = audio_views(out@);
        let ghost video_part = active_video_views(self.video_tracks@, t);
        let mut i: usize = 0;
        while i < video_clips.len()
            invariant
                self.valid(),
                i <= video_clips@.len(),
                video_views(video_clips@) == video_part,
                video_part.len() == video_clips@.len(),
                forall|j: int| 0 <= j < video_clips@.len() ==> (#[trigger] video_clips@[j]).valid(),
                audio_views(out@) == audio_part + video_part.take(i as int).map_values(
                    |c: VideoClipView| video_as_audio_view(c),
                ),
                forall|j: int| 0 <= j < out@.len() ==> (#[trigger] out@[j]).valid(),
            decreases video_clips@.len() - i,
        {
            let c = &video_clips[i];
            let converted = AudioClip {
                id: c.id,
                file_path: c.file_path.clone(),
                start_time_ms: c.start_time_ms,
                duration_ms: c.duration_ms,
                trim_start_ms: c.trim_start_ms,
                trim_end_ms: c.trim_end_ms,
                speed_permille: c.speed_permille,
                volume_permille: c.volume_permille,
                fade_in_ms: 0,
                fade_out_ms: 0,
            };
            proof {
                assert(converted@ == video_as_audio_view(video_clips@[i as int]@));
                assert(video_clips@[i as int]@ == video_views(video_clips@)[i as int]);
            }
            let ghost out0 = out@;
            out.push(converted);
            proof {
                assert(audio_views(out@) =~= audio_views(out0).push(converted@));
                assert(video_part.take(i as int + 1).map_values(
                    |c: VideoClipView| video_as_audio_view(c),
                ) =~= video_part.take(i as int).map_values(
                    |c: VideoClipView| video_as_audio_view(c),
                ).push(video_as_audio_view(video_part[i as int])));
                assert(audio_views(out@) =~= audio_part + video_part.take(i as int + 1).map_values(
                    |c: VideoClipView| video_as_audio_view(c),
                ));
            }
            i = i + 1;
        }
        proof {
            assert(video_part.take(video_part.len() as int) =~= video_part);
        }
        out
    }
}

} // verus!
