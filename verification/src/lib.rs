//! Core of a live audio-transcription pipeline: capture state, chunk
//! accumulation, PCM/WAV encoding, request building, reply decoding,
//! ordered merging of transcript fragments, structure analysis of a
//! finished transcript, and export formatting.
//!
//! Timestamps and durations are carried as integer milliseconds, audio
//! amplitudes as fixed-point millionths of full scale, and confidences
//! as thousandths, so that every rule of the pipeline is stated and
//! proved over exact integer arithmetic.

pub mod accum;
pub mod analyze;
pub mod audio;
pub mod codec;
pub mod dispatch;
pub mod errors;
pub mod export;
pub mod ids;
pub mod json;
pub mod models;
pub mod session;
pub mod text;
