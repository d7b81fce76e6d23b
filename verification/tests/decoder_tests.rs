use vidcore::decoder::{
    extract_rgba_frame, extract_yuv_frame, is_pts_at_target, seek_timestamp_us,
    stream_duration_ms, target_pts, DecodePlan, DecodeResult, Decoder, DecoderState,
};
use vidcore::frame::{downscale_nearest, Frame, PixelFormat};

fn frame_of(byte: u8) -> Frame {
    Frame {
        width: 2,
        height: 2,
        format: PixelFormat::RGBA,
        data: vec![byte; 16],
        timestamp_ms: 0,
    }
}

#[test]
fn decode_plan_follows_decision_table() {
    let mut d = Decoder::new(960, 540, 30_000, 10_000, false);
    // frame duration is 33 ms; fresh decoder at -1.
    assert_eq!(d.begin_request(0), DecodePlan::Immediate);
    d.commit_target(0);
    assert_eq!(d.begin_request(66), DecodePlan::Immediate);
    assert_eq!(d.begin_request(67), DecodePlan::ForwardDecode);
    assert_eq!(d.begin_request(100), DecodePlan::ForwardDecode);
    assert_eq!(d.begin_request(101), DecodePlan::SeekThenDecode);
    d.commit_target(500);
    // backwards always seeks
    assert_eq!(d.begin_request(100), DecodePlan::SeekThenDecode);
}

#[test]
fn eof_requests_are_idempotent() {
    let mut d = Decoder::new(960, 540, 30_000, 10_000, false);
    d.commit_target(9000);
    let first = d.on_scan_eof(9000, Some(frame_of(42)));
    let bytes1 = match first {
        DecodeResult::EndOfStream(f) => f.data,
        _ => panic!("expected an end-of-stream frame"),
    };

    // Any request at or past the recorded end is served from the cache,
    // twice in a row, with the same bytes.
    assert_eq!(d.begin_request(9500), DecodePlan::ReturnCached);
    let bytes2 = match d.cached_result() {
        DecodeResult::EndOfStream(f) => f.data,
        _ => panic!("expected the cached frame"),
    };
    assert_eq!(d.begin_request(9999), DecodePlan::ReturnCached);
    let bytes3 = match d.cached_result() {
        DecodeResult::EndOfStream(f) => f.data,
        _ => panic!("expected the cached frame"),
    };
    assert_eq!(bytes1, bytes2);
    assert_eq!(bytes2, bytes3);
    assert_eq!(d.state, DecoderState::EndOfStream);

    // A backward request clears the marker; a seek restores Ready.
    assert!(d.begin_request(100) != DecodePlan::ReturnCached);
    d.on_seek_success();
    assert_eq!(d.state, DecoderState::Ready);
    assert!(d.eof_timestamp_ms.is_none());
}

#[test]
fn error_state_serves_cache_until_seek() {
    let mut d = Decoder::new(960, 540, 30_000, 10_000, false);
    let _ = d.on_frame_decoded(frame_of(7));
    d.on_seek_failed();
    assert_eq!(d.state, DecoderState::Error);
    assert_eq!(d.begin_request(0), DecodePlan::ReturnCached);
    match d.cached_result() {
        DecodeResult::EndOfStream(f) => assert_eq!(f.data[0], 7),
        _ => panic!("expected the cached frame"),
    }
    d.on_seek_success();
    assert_eq!(d.state, DecoderState::Ready);
}

#[test]
fn empty_decoder_reports_empty_stream() {
    let d = Decoder::new(960, 540, 30_000, 0, false);
    assert!(matches!(d.cached_result(), DecodeResult::EndOfStreamEmpty));
    assert!(matches!(d.seek_failure_result(), DecodeResult::EndOfStreamEmpty));
}

#[test]
fn seek_uses_container_microseconds() {
    assert_eq!(seek_timestamp_us(1500), 1_500_000);
    assert_eq!(seek_timestamp_us(0), 0);
}

#[test]
fn pts_matching_uses_one_frame_tolerance() {
    // 1/90000 time base at 2000 ms with 33 ms tolerance.
    let target = target_pts(2000, 1, 90_000);
    assert_eq!(target, 180_000);
    let tolerance = target_pts(33, 1, 90_000);
    assert_eq!(tolerance, 2970);

    assert!(is_pts_at_target(Some((target, tolerance)), Some(180_000)));
    assert!(is_pts_at_target(Some((target, tolerance)), Some(177_030)));
    assert!(!is_pts_at_target(Some((target, tolerance)), Some(177_029)));
    // Sequential play and missing timestamps accept anything.
    assert!(is_pts_at_target(None, Some(0)));
    assert!(is_pts_at_target(Some((target, tolerance)), None));
}

#[test]
fn rgba_extraction_honors_stride() {
    // 2x2 RGBA with a stride of 12 (one padding byte group per row).
    let mut src = vec![0u8; 2 * 12];
    for c in 0..8 {
        src[c] = c as u8;
        src[12 + c] = 100 + c as u8;
    }
    let f = extract_rgba_frame(2, 2, &src, 12, 77).unwrap();
    assert_eq!(f.width, 2);
    assert_eq!(f.height, 2);
    assert_eq!(f.format, PixelFormat::RGBA);
    assert_eq!(f.timestamp_ms, 77);
    assert_eq!(f.data.len(), 16);
    assert_eq!(&f.data[0..8], &[0, 1, 2, 3, 4, 5, 6, 7]);
    assert_eq!(&f.data[8..16], &[100, 101, 102, 103, 104, 105, 106, 107]);
}

#[test]
fn rgba_extraction_rejects_truncated_frames() {
    let src = vec![0u8; 10];
    assert!(extract_rgba_frame(2, 2, &src, 8, 0).is_err());
    // A stride below the packed row width is rejected too.
    let src2 = vec![0u8; 64];
    assert!(extract_rgba_frame(2, 2, &src2, 4, 0).is_err());
}

#[test]
fn yuv_extraction_packs_three_planes() {
    let y = vec![10u8; 4];
    let u = vec![20u8; 1];
    let v = vec![30u8; 1];
    let f = extract_yuv_frame(2, 2, &y, 2, &u, 1, &v, 1, 5);
    assert_eq!(f.format, PixelFormat::YUV420P);
    assert_eq!(f.data.len(), 6);
    assert_eq!(&f.data[..], &[10, 10, 10, 10, 20, 30]);
}

#[test]
fn yuv_extraction_leaves_short_rows_zero() {
    // The Y plane is too short for its second row: that row stays zero.
    let y = vec![10u8; 2];
    let u = vec![20u8; 1];
    let v = vec![30u8; 1];
    let f = extract_yuv_frame(2, 2, &y, 2, &u, 1, &v, 1, 5);
    assert_eq!(&f.data[..], &[10, 10, 0, 0, 20, 30]);
}

#[test]
fn duration_prefers_stream_then_container() {
    // Stream duration 900 in a 1/100 time base: 9000 ms.
    assert_eq!(stream_duration_ms(900, 1, 100, 0), 9000);
    // No stream duration: the container's microseconds are used.
    assert_eq!(stream_duration_ms(0, 1, 100, 2_500_000), 2500);
    // Neither: zero.
    assert_eq!(stream_duration_ms(0, 1, 100, 0), 0);
}

#[test]
fn thumbnail_downscale_picks_nearest_pixels() {
    // A 2x2 image downscaled to 1x1 keeps the top-left pixel.
    let mut src = vec![0u8; 16];
    for c in 0..4 {
        src[c] = 1 + c as u8;
    }
    let out = downscale_nearest(&src, 2, 2, 1, 1);
    assert_eq!(&out[..], &[1, 2, 3, 4]);
}
