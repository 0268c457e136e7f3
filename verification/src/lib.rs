//! Per-channel real-time audio pipeline for multi-channel radio transcription.
//!
//! The crate holds the decision logic of the pipeline: the voice-activity
//! detector, the retry buffer, the framing of PCM for the recognizer, the
//! connection lifecycle of a channel, the dashboard snapshot and the text
//! normalisation of final transcripts. Device, network and file I/O live
//! outside; they hand plain values in and act on the plans handed back.

pub mod audio_input;
pub mod audio_output;
pub mod buffer;
pub mod channel_processor;
pub mod config;
pub mod flac_encoder;
pub mod text;
pub mod transcribe;
pub mod tui;
pub mod tui_state;
pub mod types;
pub mod vad;
pub mod wav_writer;
pub mod whisper_api;
