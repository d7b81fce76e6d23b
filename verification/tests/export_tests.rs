use vidcore::audio_decoder::samples_for_duration;
use vidcore::encoder::{crf_to_bitrate, select_h264_encoder, EncoderType};
use vidcore::export::{
    deinterleave_channel, export_progress, frame_timestamp_ms, more_frames, pad_final_aac_frame,
    take_aac_frame, total_frames, validate_config, ExportConfig, ExportJob,
};
use vidcore::transcription::{
    centi_to_ms, filter_segments, keep_segment_text, map_recognition_progress, TranscriberJob,
    TranscriptSegment,
};

fn config() -> ExportConfig {
    ExportConfig {
        output_path: String::from("out.mp4"),
        width: 1920,
        height: 1080,
        fps_millis: 30_000,
        crf: 23,
    }
}

#[test]
fn export_schedule_covers_exactly_the_timeline() {
    // A 10-second timeline at 30 fps: 300 frames with timestamps 0..10000.
    assert_eq!(total_frames(10_000, 30_000), 300);
    assert_eq!(frame_timestamp_ms(0, 30_000), 0);
    assert_eq!(frame_timestamp_ms(1, 30_000), 33);
    assert_eq!(frame_timestamp_ms(299, 30_000), 9966);
    assert!(more_frames(299, 30_000, 10_000));
    assert_eq!(frame_timestamp_ms(300, 30_000), 10_000);
    assert!(!more_frames(300, 30_000, 10_000));

    // The audio sent over those 300 frames is 960,000 samples.
    let mut audio_total: usize = 0;
    for _ in 0..300 {
        audio_total += samples_for_duration(33_333);
    }
    assert_eq!(audio_total, 960_000);
}

#[test]
fn export_progress_caps_below_completion() {
    assert_eq!(export_progress(0, 300), 0);
    assert_eq!(export_progress(149, 300), 50);
    assert_eq!(export_progress(299, 300), 99);
    assert_eq!(export_progress(0, 1), 99);
}

#[test]
fn export_job_lifecycle() {
    let mut job = ExportJob::new();
    assert_eq!(job.get_progress(), 0);
    assert!(!job.is_finished());
    assert!(job.get_error().is_none());

    job.set_progress(42);
    assert_eq!(job.get_progress(), 42);

    job.cancel();
    assert!(job.cancelled);

    job.mark_completed();
    assert!(job.is_finished());
    assert_eq!(job.get_progress(), 100);

    let mut failed = ExportJob::new();
    failed.mark_failed(String::from("the timeline is empty"));
    assert!(failed.is_finished());
    assert_eq!(failed.get_error().unwrap(), "the timeline is empty");
}

#[test]
fn config_validation_rejects_bad_inputs() {
    assert!(validate_config(&config(), 10_000).is_ok());
    assert!(validate_config(&config(), 0).is_err());
    let mut c = config();
    c.fps_millis = 0;
    assert!(validate_config(&c, 10_000).is_err());
    let mut c2 = config();
    c2.width = 1921;
    assert!(validate_config(&c2, 10_000).is_err());
    let mut c3 = config();
    c3.height = 0;
    assert!(validate_config(&c3, 10_000).is_err());
}

#[test]
fn encoder_selection_prefers_hardware_then_falls_back() {
    // All four available: the automatic choice takes NVENC.
    assert_eq!(select_h264_encoder(EncoderType::Auto, 0b1111), Some(EncoderType::Nvenc));
    assert_eq!(select_h264_encoder(EncoderType::Auto, 0b1101), Some(EncoderType::Qsv));
    assert_eq!(select_h264_encoder(EncoderType::Auto, 0b1001), Some(EncoderType::Amf));
    assert_eq!(select_h264_encoder(EncoderType::Auto, 0b0001), Some(EncoderType::Software));
    assert_eq!(select_h264_encoder(EncoderType::Auto, 0), None);
    // A missing hardware encoder falls back to software.
    assert_eq!(select_h264_encoder(EncoderType::Nvenc, 0b0001), Some(EncoderType::Software));
    assert_eq!(select_h264_encoder(EncoderType::Nvenc, 0b0010), Some(EncoderType::Nvenc));
    assert_eq!(select_h264_encoder(EncoderType::Software, 0b1110), None);
}

#[test]
fn encoder_type_from_selector() {
    assert_eq!(EncoderType::from_u32(0), EncoderType::Auto);
    assert_eq!(EncoderType::from_u32(1), EncoderType::Software);
    assert_eq!(EncoderType::from_u32(2), EncoderType::Nvenc);
    assert_eq!(EncoderType::from_u32(3), EncoderType::Qsv);
    assert_eq!(EncoderType::from_u32(4), EncoderType::Amf);
    assert_eq!(EncoderType::from_u32(99), EncoderType::Auto);
}

#[test]
fn bitrate_follows_the_quality_factor() {
    assert_eq!(crf_to_bitrate(23, 1920, 1080), 1920 * 1080 * 6);
    assert_eq!(crf_to_bitrate(15, 1920, 1080), 1920 * 1080 * 16);
    assert_eq!(crf_to_bitrate(18, 1280, 720), 1280 * 720 * 10);
    assert_eq!(crf_to_bitrate(28, 1920, 1080), 1920 * 1080 * 3);
    assert_eq!(crf_to_bitrate(40, 1920, 1080), 1920 * 1080 * 2);
}

#[test]
fn aac_framing_drains_whole_frames_and_pads_the_tail() {
    let mut buffer: Vec<u32> = (0..10u32).collect();
    let frame = take_aac_frame(&mut buffer, 4).unwrap();
    assert_eq!(frame, vec![0, 1, 2, 3]);
    let frame2 = take_aac_frame(&mut buffer, 4).unwrap();
    assert_eq!(frame2, vec![4, 5, 6, 7]);
    assert!(take_aac_frame(&mut buffer, 4).is_none());
    assert_eq!(buffer, vec![8, 9]);

    pad_final_aac_frame(&mut buffer, 4);
    assert_eq!(buffer, vec![8, 9, 0, 0]);

    let mut empty: Vec<u32> = Vec::new();
    pad_final_aac_frame(&mut empty, 4);
    assert!(empty.is_empty());
}

#[test]
fn deinterleave_splits_stereo_planes() {
    let frame: Vec<u32> = vec![1, 2, 3, 4, 5, 6];
    assert_eq!(deinterleave_channel(&frame, 2, 0), vec![1, 3, 5]);
    assert_eq!(deinterleave_channel(&frame, 2, 1), vec![2, 4, 6]);
}

#[test]
fn recognition_progress_maps_into_the_job_band() {
    assert_eq!(map_recognition_progress(0), 20);
    assert_eq!(map_recognition_progress(100), 95);
    assert_eq!(map_recognition_progress(50), 57);
    assert_eq!(centi_to_ms(150), 1500);
}

#[test]
fn noise_segments_are_filtered() {
    assert!(!keep_segment_text(""));
    assert!(!keep_segment_text("(Music)"));
    assert!(!keep_segment_text("[BLANK_AUDIO]"));
    assert!(keep_segment_text("hello there"));
    assert!(keep_segment_text("a (quote) inside"));

    let raw = vec![
        TranscriptSegment { start_ms: 0, end_ms: 100, text: String::from("(Music)") },
        TranscriptSegment { start_ms: 100, end_ms: 900, text: String::from("hello") },
        TranscriptSegment { start_ms: 900, end_ms: 950, text: String::from("") },
    ];
    let kept = filter_segments(raw);
    assert_eq!(kept.len(), 1);
    assert_eq!(kept[0].text, "hello");
    assert_eq!(kept[0].start_ms, 100);
}

#[test]
fn transcriber_job_lifecycle() {
    let mut job = TranscriberJob::new();
    assert_eq!(job.get_progress(), 0);
    assert!(!job.is_finished());
    job.set_progress(20);
    job.request_abort();
    assert!(job.abort_requested);
    job.complete_with(vec![TranscriptSegment {
        start_ms: 0,
        end_ms: 10,
        text: String::from("hi"),
    }]);
    assert!(job.is_finished());
    assert_eq!(job.get_progress(), 100);
    let segs = job.get_segments();
    assert_eq!(segs.len(), 1);
    assert_eq!(segs[0].text, "hi");
    assert!(job.get_error().is_none());
}
