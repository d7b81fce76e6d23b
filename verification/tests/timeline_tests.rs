use vidcore::clip::VideoClip;
use vidcore::timeline::Timeline;
use vidcore::track::VideoTrack;

#[test]
fn it_works() {
    assert_eq!(2 + 2, 4);
}

#[test]
fn test_video_track_add_clip() {
    let mut track = VideoTrack::new(1, 0);

    let clip1 = VideoClip::new(1, String::from("test1.mp4"), 0, 5000, None);
    let clip2 = VideoClip::new(2, String::from("test2.mp4"), 5000, 3000, None);

    track.add_clip(clip1);
    track.add_clip(clip2);

    assert_eq!(track.clips.len(), 2);
    assert_eq!(track.clips[0].id, 1);
    assert_eq!(track.clips[1].id, 2);
}

#[test]
fn test_video_track_remove_clip() {
    let mut track = VideoTrack::new(1, 0);
    let clip = VideoClip::new(1, String::from("test.mp4"), 0, 5000, None);
    track.add_clip(clip);

    assert_eq!(track.clips.len(), 1);

    let removed = track.remove_clip(1);
    assert!(removed.is_some());
    assert_eq!(track.clips.len(), 0);

    let not_found = track.remove_clip(999);
    assert!(not_found.is_none());
}

#[test]
fn test_video_track_get_clip_at_time() {
    let mut track = VideoTrack::new(1, 0);

    let clip1 = VideoClip::new(1, String::from("test1.mp4"), 0, 5000, None);
    let clip2 = VideoClip::new(2, String::from("test2.mp4"), 5000, 3000, None);

    track.add_clip(clip1);
    track.add_clip(clip2);

    let clip_at_2000 = track.get_clip_at_time(2000);
    assert!(clip_at_2000.is_some());
    assert_eq!(clip_at_2000.unwrap().id, 1);

    let clip_at_6000 = track.get_clip_at_time(6000);
    assert!(clip_at_6000.is_some());
    assert_eq!(clip_at_6000.unwrap().id, 2);

    let clip_at_9000 = track.get_clip_at_time(9000);
    assert!(clip_at_9000.is_none());
}

#[test]
fn test_track_disabled() {
    let mut track = VideoTrack::new(1, 0);
    let clip = VideoClip::new(1, String::from("test.mp4"), 0, 5000, None);
    track.add_clip(clip);

    track.enabled = false;

    let result = track.get_clip_at_time(2000);
    assert!(result.is_none());
}

#[test]
fn test_timeline_creation() {
    let timeline = Timeline::new(1920, 1080, 30);
    assert_eq!(timeline.width, 1920);
    assert_eq!(timeline.height, 1080);
    assert_eq!(timeline.fps, 30);
    assert_eq!(timeline.video_tracks.len(), 0);
    assert_eq!(timeline.audio_tracks.len(), 0);
}

#[test]
fn test_add_tracks() {
    let mut timeline = Timeline::new(1920, 1080, 30);

    let video_track_id = timeline.add_video_track();
    let audio_track_id = timeline.add_audio_track();

    assert_eq!(timeline.video_tracks.len(), 1);
    assert_eq!(timeline.audio_tracks.len(), 1);
    assert_eq!(timeline.video_tracks[0].id, video_track_id);
    assert_eq!(timeline.audio_tracks[0].id, audio_track_id);
}

#[test]
fn test_add_video_clip() {
    let mut timeline = Timeline::new(1920, 1080, 30);
    let track_id = timeline.add_video_track();

    let clip_id = timeline.add_video_clip(track_id, String::from("test.mp4"), 0, 5000);

    assert!(clip_id.is_some());
    assert_eq!(timeline.video_tracks[0].clips.len(), 1);
    assert_eq!(timeline.video_tracks[0].clips[0].id, clip_id.unwrap());
}

#[test]
fn test_remove_video_clip() {
    let mut timeline = Timeline::new(1920, 1080, 30);
    let track_id = timeline.add_video_track();
    let clip_id = timeline
        .add_video_clip(track_id, String::from("test.mp4"), 0, 5000)
        .unwrap();

    assert_eq!(timeline.video_tracks[0].clips.len(), 1);

    let removed = timeline.remove_video_clip(track_id, clip_id);
    assert!(removed);
    assert_eq!(timeline.video_tracks[0].clips.len(), 0);
}

#[test]
fn test_timeline_duration() {
    let mut timeline = Timeline::new(1920, 1080, 30);

    let video_track = timeline.add_video_track();
    let audio_track = timeline.add_audio_track();

    timeline.add_video_clip(video_track, String::from("v1.mp4"), 0, 5000);
    timeline.add_video_clip(video_track, String::from("v2.mp4"), 5000, 3000);
    timeline.add_audio_clip(audio_track, String::from("a1.mp3"), 0, 10000);

    assert_eq!(timeline.duration_ms(), 10000);
}

#[test]
fn test_get_clips_at_time() {
    let mut timeline = Timeline::new(1920, 1080, 30);

    let track1 = timeline.add_video_track();
    let track2 = timeline.add_video_track();

    timeline.add_video_clip(track1, String::from("v1.mp4"), 0, 5000);
    timeline.add_video_clip(track2, String::from("v2.mp4"), 2000, 3000);

    let clips_at_3000 = timeline.get_video_clips_at_time(3000);
    assert_eq!(clips_at_3000.len(), 2);

    let clips_at_6000 = timeline.get_video_clips_at_time(6000);
    assert_eq!(clips_at_6000.len(), 0);
}

#[test]
fn source_time_follows_trim_and_speed() {
    let mut clip = VideoClip::new(7, String::from("clip.mp4"), 1000, 4000, None);
    clip.trim_start_ms = 500;
    clip.speed_permille = 2000;

    // source = trim_start + (t - start) * speed
    assert_eq!(clip.timeline_to_source_time(1000), Some(500));
    assert_eq!(clip.timeline_to_source_time(2000), Some(2500));
    assert_eq!(clip.timeline_to_source_time(4999), Some(8498));
    assert_eq!(clip.timeline_to_source_time(5000), None);
    assert_eq!(clip.timeline_to_source_time(999), None);
}

#[test]
fn transition_detected_between_overlapping_clips() {
    let mut track = VideoTrack::new(1, 0);
    let clip1 = VideoClip::new(1, String::from("a.mp4"), 0, 6000, None);
    let clip2 = VideoClip::new(2, String::from("b.mp4"), 4000, 4000, None);
    track.add_clip(clip1);
    track.add_clip(clip2);

    let info = track.get_transition_at_time(5000).expect("transition expected");
    assert_eq!(info.outgoing.id, 1);
    assert_eq!(info.incoming.id, 2);
    // halfway through the overlap [4000, 6000)
    assert_eq!(info.progress_permille, 500);
    assert_eq!(info.transition_type, vidcore::clip::TransitionType::Crossfade);

    assert!(track.get_transition_at_time(2000).is_none());
    assert!(track.get_transition_at_time(7000).is_none());
}

#[test]
fn video_clips_become_audio_sources() {
    let mut timeline = Timeline::new(1920, 1080, 30);
    let vtrack = timeline.add_video_track();
    let atrack = timeline.add_audio_track();
    timeline.add_video_clip(vtrack, String::from("v.mp4"), 0, 5000);
    timeline.add_audio_clip(atrack, String::from("a.mp3"), 0, 5000);

    let sources = timeline.get_all_audio_sources_at_time(1000);
    assert_eq!(sources.len(), 2);
    // audio-track clips come first, then the video clips' embedded audio
    assert_eq!(sources[0].file_path, "a.mp3");
    assert_eq!(sources[1].file_path, "v.mp4");
    assert_eq!(sources[1].fade_in_ms, 0);
    assert_eq!(sources[1].fade_out_ms, 0);
}
