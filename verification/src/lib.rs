//! Multi-source audio capture and transcription core.
//!
//! The library manages concurrent per-source recording sessions: each
//! session accumulates 32-bit float samples (carried as their raw bit
//! patterns) and is finalized into a complete WAV file image on stop.
//! A transcription service validates recordings and assembles the text
//! returned by a speech-recognition engine. The surrounding application
//! owns the hardware streams, the files on disk and the recognition
//! model; this crate owns and verifies every decision in between.

pub mod audio;
pub mod transcription;
pub mod wav;
