use vidcore::decoder::DecodeResult;
use vidcore::effects::{apply_effects, EffectParams};
use vidcore::frame::{Frame, PixelFormat, RenderedFrame};
use vidcore::playback_engine::{black_retry_ms, black_skip_ms, PlaybackEngine};
use vidcore::renderer::{FramePlan, Renderer};
use vidcore::timeline::Timeline;
use vidcore::clip::TransitionType;
use vidcore::transitions::apply_transition;

#[test]
fn test_renderer_create() {
    let _renderer = Renderer::new();
}

#[test]
fn empty_timeline_renders_black() {
    // An empty timeline composes nothing, and the fallback is an all-black
    // 960x540 RGBA frame.
    let renderer = Renderer::new();
    let timeline = Timeline::new(1920, 1080, 30);
    assert!(matches!(renderer.plan_frame(&timeline, 0), FramePlan::NoClip));

    let frame = renderer.fallback_frame(0);
    assert_eq!(frame.width, 960);
    assert_eq!(frame.height, 540);
    assert!(!frame.is_yuv);
    assert!(frame.data.iter().all(|&b| b == 0));
}

#[test]
fn single_clip_plan_maps_the_source_time() {
    let renderer = Renderer::new();
    let mut timeline = Timeline::new(1920, 1080, 30);
    let track = timeline.add_video_track();
    timeline.add_video_clip(track, String::from("test.mp4"), 0, 5000);

    match renderer.plan_frame(&timeline, 2000) {
        FramePlan::Single { clip, source_time_ms } => {
            assert_eq!(clip.file_path, "test.mp4");
            assert_eq!(source_time_ms, 2000);
        },
        _ => panic!("expected a single-clip plan"),
    }
}

#[test]
fn second_render_hits_the_cache() {
    let mut renderer = Renderer::new();
    let frame = Frame {
        width: 2,
        height: 2,
        format: PixelFormat::RGBA,
        data: vec![9u8; 16],
        timestamp_ms: 2000,
    };
    let shown = renderer.integrate_single_decode(
        1,
        String::from("test.mp4"),
        2000,
        2000,
        DecodeResult::Frame(frame),
    );
    assert_eq!(shown.data, vec![9u8; 16]);
    // One entry cached after the decode; the second render needs none.
    let (count, _bytes) = renderer.cache_stats();
    assert_eq!(count, 1);
    let cached = renderer.frame_cache.get("test.mp4", 2000);
    assert!(cached.is_some());
}

#[test]
fn playback_mode_skips_the_cache() {
    let mut renderer = Renderer::new();
    renderer.set_playback_mode(true);
    assert_eq!(renderer.decode_threshold_ms(), 5000);
    let frame = Frame {
        width: 2,
        height: 2,
        format: PixelFormat::RGBA,
        data: vec![9u8; 16],
        timestamp_ms: 0,
    };
    let _ = renderer.integrate_single_decode(
        1,
        String::from("test.mp4"),
        0,
        0,
        DecodeResult::Frame(frame),
    );
    let (count, _bytes) = renderer.cache_stats();
    assert_eq!(count, 0);
    renderer.set_playback_mode(false);
    assert_eq!(renderer.decode_threshold_ms(), 100);
}

#[test]
fn skipped_decode_serves_the_last_frame() {
    let mut renderer = Renderer::new();
    let frame = Frame {
        width: 2,
        height: 2,
        format: PixelFormat::RGBA,
        data: vec![5u8; 16],
        timestamp_ms: 0,
    };
    let _ = renderer.integrate_single_decode(
        1,
        String::from("test.mp4"),
        0,
        0,
        DecodeResult::Frame(frame),
    );
    let held = renderer.integrate_single_decode(
        1,
        String::from("test.mp4"),
        33,
        33,
        DecodeResult::FrameSkipped,
    );
    assert_eq!(held.data, vec![5u8; 16]);
}

#[test]
fn crossfade_blends_half_and_half() {
    // Two uniform frames at half progress blend to the average, alpha
    // opaque.
    let mut outgoing = vec![100u8; 16];
    let incoming = vec![200u8; 16];
    apply_transition(&mut outgoing, &incoming, 2, 2, 500, TransitionType::Crossfade);
    for px in 0..4 {
        assert_eq!(outgoing[px * 4], 150);
        assert_eq!(outgoing[px * 4 + 1], 150);
        assert_eq!(outgoing[px * 4 + 2], 150);
        assert_eq!(outgoing[px * 4 + 3], 255);
    }
}

#[test]
fn fade_black_attenuates_by_phase() {
    let mut outgoing = vec![200u8; 8];
    let incoming = vec![100u8; 8];
    // First half: the outgoing frame darkens by 1 - 2p.
    apply_transition(&mut outgoing, &incoming, 2, 1, 250, TransitionType::FadeBlack);
    assert_eq!(outgoing[0], 100);
    assert_eq!(outgoing[3], 255);

    // Second half: the incoming frame rises by 2p - 1.
    let mut outgoing2 = vec![200u8; 8];
    apply_transition(&mut outgoing2, &incoming, 2, 1, 750, TransitionType::FadeBlack);
    assert_eq!(outgoing2[0], 50);
    assert_eq!(outgoing2[3], 255);
}

#[test]
fn wipes_split_at_the_boundary() {
    // 2x1: at half progress the left column comes from the incoming frame.
    let mut outgoing = vec![10u8; 8];
    let incoming = vec![20u8; 8];
    apply_transition(&mut outgoing, &incoming, 2, 1, 500, TransitionType::WipeLeft);
    assert_eq!(&outgoing[0..4], &[20, 20, 20, 255]);
    assert_eq!(&outgoing[4..8], &[10, 10, 10, 10]);

    // 1x2 vertical: at half progress the bottom row comes from the
    // incoming frame.
    let mut outgoing2 = vec![10u8; 8];
    let incoming2 = vec![20u8; 8];
    apply_transition(&mut outgoing2, &incoming2, 1, 2, 500, TransitionType::WipeDown);
    assert_eq!(&outgoing2[0..4], &[10, 10, 10, 10]);
    assert_eq!(&outgoing2[4..8], &[20, 20, 20, 20]);
}

#[test]
fn default_effects_change_nothing() {
    let mut data = vec![17u8, 34, 51, 68, 85, 102, 119, 136];
    let before = data.clone();
    apply_effects(&mut data, 2, 1, &EffectParams::new());
    assert_eq!(data, before);
}

#[test]
fn brightness_saturates_at_white() {
    let mut data = vec![100u8, 100, 100, 7];
    let params = EffectParams {
        brightness_permille: 1000,
        contrast_permille: 0,
        saturation_permille: 0,
        temperature_permille: 0,
    };
    apply_effects(&mut data, 1, 1, &params);
    // 100 + 255 clamps to 255 per colour channel; alpha is untouched.
    assert_eq!(data, vec![255, 255, 255, 7]);
}

#[test]
fn effects_update_invalidates_the_cache() {
    let mut renderer = Renderer::new();
    let frame = Frame {
        width: 2,
        height: 2,
        format: PixelFormat::RGBA,
        data: vec![1u8; 16],
        timestamp_ms: 0,
    };
    let _ = renderer.integrate_single_decode(
        1,
        String::from("test.mp4"),
        0,
        0,
        DecodeResult::Frame(frame),
    );
    assert_eq!(renderer.cache_stats().0, 1);
    renderer.set_clip_effects(
        1,
        EffectParams {
            brightness_permille: 100,
            contrast_permille: 0,
            saturation_permille: 0,
            temperature_permille: 0,
        },
    );
    assert_eq!(renderer.cache_stats().0, 0);
    assert!(renderer.effects_for(1).is_some());
    renderer.clear_clip_effects(1);
    assert!(renderer.effects_for(1).is_none());
}

#[test]
fn adaptive_skip_reuses_the_previous_frame() {
    let mut renderer = Renderer::new();
    renderer.set_playback_mode(true);
    let frame = Frame {
        width: 2,
        height: 2,
        format: PixelFormat::RGBA,
        data: vec![8u8; 16],
        timestamp_ms: 100,
    };
    let _ = renderer.integrate_single_decode(
        1,
        String::from("test.mp4"),
        100,
        100,
        DecodeResult::Frame(frame),
    );
    renderer.note_render_elapsed(40);
    assert!(renderer.should_skip_transition());
    let reused = renderer.reuse_last_frame(133).unwrap();
    assert_eq!(reused.timestamp_ms, 133);
    assert_eq!(reused.data, vec![8u8; 16]);
    // The skip resets the timing so the next frame renders normally.
    assert!(!renderer.should_skip_transition());
}

fn frame_with_alpha(alpha: u8, timestamp_ms: i64) -> RenderedFrame {
    let mut data = vec![50u8; 16];
    data[3] = alpha;
    RenderedFrame { width: 2, height: 2, data, timestamp_ms, is_yuv: false }
}

#[test]
fn black_frames_are_retried_not_queued() {
    // Three black artifacts then a normal frame: the queue holds only the
    // normal frame.
    let mut engine = PlaybackEngine::new();
    engine.start(0);
    let mut next_ms: i64 = 0;
    let mut queued = false;
    let mut attempt: u32 = 0;
    while !queued && attempt < 4 {
        let alpha = if attempt < 3 { 0x00 } else { 0xFF };
        let render_at = black_retry_ms(next_ms, attempt);
        let frame = frame_with_alpha(alpha, render_at);
        queued = engine.accept_frame(frame, render_at);
        attempt += 1;
    }
    assert!(queued);
    assert_eq!(engine.queue_len(), 1);
    let got = engine.try_get_frame(99).expect("the good frame is nearby");
    assert_eq!(got.timestamp_ms, 99);
    assert_eq!(got.data[3], 0xFF);

    // Had every retry stayed black, the position would jump ahead.
    assert_eq!(black_skip_ms(next_ms), 200);
    next_ms = black_skip_ms(next_ms);
    assert_eq!(next_ms, 200);
}

#[test]
fn prefetch_paces_against_the_master_clock() {
    let mut engine = PlaybackEngine::new();
    engine.start(1000);
    assert!(!engine.should_wait());
    let f = frame_with_alpha(0xFF, 1600);
    assert!(engine.accept_frame(f, 1600));
    // 600 ms ahead of the last request: wait.
    assert!(engine.should_wait());
    let _ = engine.try_get_frame(1550);
    assert!(!engine.should_wait());
    engine.stop();
    assert_eq!(engine.queue_len(), 0);
    assert!(engine.cancelled);
}
