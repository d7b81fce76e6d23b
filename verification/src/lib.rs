//! Core of a non-linear video editing engine: timeline model, stateful
//! decode policy, frame cache and queue, audio sample accounting, mixing
//! plans, playback prefetch and export planning.
//!
//! All timing is in integer milliseconds (microseconds where finer grain is
//! needed); rates such as clip speed and volume are in per-mille units.

pub mod audio_decoder;
pub mod audio_mixer;
pub mod audio_playback;
pub mod clip;
pub mod decoder;
pub mod effects;
pub mod encoder;
pub mod export;
pub mod frame;
pub mod frame_cache;
pub mod frame_queue;
pub mod playback_engine;
pub mod renderer;
pub mod timeline;
pub mod track;
pub mod transcription;
pub mod transitions;
