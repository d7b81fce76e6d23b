use vidcore::audio_decoder::{samples_for_duration, AudioDecoder, SkipResult};
use vidcore::audio_mixer::{calc_fade_volume, mix_range_plan, AudioMixer};
use vidcore::audio_playback::{
    callback_fill, prefill_step, steady_fill_step, AudioRingBuffer, FillStep, BUFFER_CAPACITY,
    FILL_THRESHOLD,
};
use vidcore::clip::AudioClip;

#[test]
fn chunk_sample_counts_match_the_format() {
    // One 30 fps frame of audio at 48 kHz stereo.
    assert_eq!(samples_for_duration(33_333), 3200);
    // A 100 ms fill chunk.
    assert_eq!(samples_for_duration(100_000), 9600);
    assert_eq!(samples_for_duration(0), 0);
    let m = AudioMixer::new();
    assert_eq!(m.sample_rate(), 48000);
    assert_eq!(m.channels(), 2);
    assert_eq!(m.output_samples(33_333), 3200);
}

#[test]
fn leftover_samples_carry_across_chunks() {
    let mut d = AudioDecoder::new(10_000, 1, 48000, 48000);
    // Request 1 ms: 96 samples. Decode 100: 4 carry over.
    let out = d.finish_range(0, 1000, (0..100u32).collect());
    assert_eq!(out.len(), 96);
    assert_eq!(out[0], 0);
    assert_eq!(out[95], 95);
    assert_eq!(d.leftover_samples.len(), 4);

    // The next chunk consumes the carried samples first: nothing is lost
    // at the boundary.
    let out2 = d.finish_range(1, 1000, (100..200u32).collect());
    assert_eq!(out2.len(), 96);
    assert_eq!(out2[0], 96);
    assert_eq!(out2[3], 99);
    assert_eq!(out2[4], 100);
    assert_eq!(d.leftover_samples.len(), 8);
}

#[test]
fn short_decode_pads_with_silence() {
    let mut d = AudioDecoder::new(10_000, 1, 48000, 48000);
    let out = d.finish_range(0, 1000, vec![7u32; 10]);
    assert_eq!(out.len(), 96);
    assert_eq!(out[9], 7);
    assert_eq!(out[10], 0);
    assert_eq!(d.leftover_samples.len(), 0);
}

#[test]
fn seek_discards_the_carry() {
    let mut d = AudioDecoder::new(10_000, 1, 48000, 48000);
    let _ = d.finish_range(0, 1000, vec![1u32; 200]);
    assert!(d.leftover_samples.len() > 0);
    assert!(!d.needs_seek(1));
    assert!(d.needs_seek(5000));
    assert!(d.needs_seek(0));
    d.on_seek(5000);
    assert_eq!(d.leftover_samples.len(), 0);
    assert_eq!(d.current_pos_ms, 5000);
}

#[test]
fn skip_decision_follows_the_target() {
    let d = AudioDecoder::new(10_000, 1, 1000, 48000);
    // Time base 1/1000: a presentation time is its millisecond value.
    // 48000 samples at a 48 kHz input rate last 1000 ms.
    assert_eq!(d.check_skip(Some(0), 48000, 2000), SkipResult::SkipEntire);
    match d.check_skip(Some(1500), 48000, 2000) {
        SkipResult::Partial(n) => assert_eq!(n, 500 * 96),
        _ => panic!("expected a partial skip"),
    }
    assert_eq!(d.check_skip(Some(2000), 48000, 2000), SkipResult::NoSkip);
    assert_eq!(d.check_skip(None, 48000, 2000), SkipResult::NoSkip);
}

#[test]
fn fade_volume_ramps_in_and_out() {
    let mut clip = AudioClip::new(1, String::from("a.mp3"), 0, 10_000);
    clip.fade_in_ms = 1000;
    clip.fade_out_ms = 2000;
    assert_eq!(calc_fade_volume(&clip, 0), 0);
    assert_eq!(calc_fade_volume(&clip, 500), 500);
    assert_eq!(calc_fade_volume(&clip, 1000), 1000);
    assert_eq!(calc_fade_volume(&clip, 5000), 1000);
    assert_eq!(calc_fade_volume(&clip, 9000), 500);
    assert_eq!(calc_fade_volume(&clip, 9999), 0);
}

#[test]
fn mix_plan_carries_volume_and_source_range() {
    let mut clip = AudioClip::new(1, String::from("a.mp3"), 0, 10_000);
    clip.volume_permille = 500;
    let plan = mix_range_plan(&vec![clip], 0, 33_333);
    assert_eq!(plan.len(), 1);
    assert_eq!(plan[0].file_path, "a.mp3");
    assert_eq!(plan[0].source_start_ms, 0);
    assert_eq!(plan[0].source_duration_us, 33_333);
    // volume 0.5, no fade: half gain, so every decoded unit sample mixes
    // to 0.5.
    assert_eq!(plan[0].gain_permicro, 500_000);
    assert_eq!(plan[0].speed_permille, 1000);
}

#[test]
fn mix_plan_skips_clips_outside_the_range() {
    let clip = AudioClip::new(1, String::from("a.mp3"), 5000, 1000);
    assert_eq!(mix_range_plan(&vec![clip.clone()], 0, 100_000).len(), 0);
    assert_eq!(mix_range_plan(&vec![clip.clone()], 6000, 100_000).len(), 0);
    assert_eq!(mix_range_plan(&vec![clip], 5500, 100_000).len(), 1);
}

#[test]
fn mix_plan_scales_the_source_range_by_speed() {
    let mut clip = AudioClip::new(1, String::from("a.mp3"), 0, 10_000);
    clip.speed_permille = 2000;
    clip.trim_start_ms = 100;
    let plan = mix_range_plan(&vec![clip], 1000, 33_333);
    assert_eq!(plan.len(), 1);
    assert_eq!(plan[0].source_start_ms, 100 + 2000);
    assert_eq!(plan[0].source_duration_us, 66_666);
}

#[test]
fn ring_buffer_overflow_keeps_the_newest_second() {
    let mut b = AudioRingBuffer::new();
    let first: Vec<u32> = vec![1; 50_000];
    let second: Vec<u32> = (0..50_000u32).collect();
    b.push(&first);
    assert_eq!(b.len(), 50_000);
    b.push(&second);
    // 100,000 samples were pushed: exactly the capacity remains, equal to
    // the last capacity pushed (the oldest 4,000 are gone).
    assert_eq!(b.len(), BUFFER_CAPACITY);
    let mut out = vec![0u32; 4];
    b.fill_output(&mut out);
    assert_eq!(out, vec![1, 1, 1, 1]);
}

#[test]
fn ring_buffer_single_oversized_push_keeps_its_tail() {
    let mut b = AudioRingBuffer::new();
    let data: Vec<u32> = (0..100_000u32).collect();
    b.push(&data);
    assert_eq!(b.len(), BUFFER_CAPACITY);
    let mut out = vec![0u32; 2];
    b.fill_output(&mut out);
    // The oldest 4000 samples were dropped.
    assert_eq!(out, vec![4000, 4001]);
}

#[test]
fn ring_buffer_pads_underrun_with_silence() {
    let mut b = AudioRingBuffer::new();
    b.push(&vec![5u32; 3]);
    let mut out = vec![9u32; 6];
    b.fill_output(&mut out);
    assert_eq!(out, vec![5, 5, 5, 0, 0, 0]);
    assert_eq!(b.len(), 0);
}

#[test]
fn callback_outputs_silence_under_contention() {
    let mut b = AudioRingBuffer::new();
    b.push(&vec![3u32; 10]);

    // Lock contention: silence, buffer untouched.
    let mut out = vec![9u32; 4];
    callback_fill(true, false, &mut b, &mut out);
    assert_eq!(out, vec![0, 0, 0, 0]);
    assert_eq!(b.len(), 10);

    // Paused: silence too.
    let mut out2 = vec![9u32; 4];
    callback_fill(false, true, &mut b, &mut out2);
    assert_eq!(out2, vec![0, 0, 0, 0]);
    assert_eq!(b.len(), 10);

    // Playing with the lock: samples flow and drain.
    let mut out3 = vec![9u32; 4];
    callback_fill(true, true, &mut b, &mut out3);
    assert_eq!(out3, vec![3, 3, 3, 3]);
    assert_eq!(b.len(), 6);
}

#[test]
fn fill_thread_decisions_back_off_properly() {
    assert_eq!(prefill_step(true, true), FillStep::Stop);
    assert_eq!(prefill_step(false, false), FillStep::SleepMs(2));
    assert_eq!(prefill_step(false, true), FillStep::MixChunk);

    assert_eq!(steady_fill_step(true, true, 0, true), FillStep::Stop);
    assert_eq!(steady_fill_step(false, false, 0, true), FillStep::SleepMs(10));
    assert_eq!(steady_fill_step(false, true, FILL_THRESHOLD + 1, true), FillStep::SleepMs(10));
    assert_eq!(steady_fill_step(false, true, 0, false), FillStep::SleepMs(5));
    assert_eq!(steady_fill_step(false, true, 0, true), FillStep::MixChunk);
}
