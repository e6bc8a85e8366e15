//! Monophonic pitch transcription on integer data.
//!
//! Frequencies are whole millihertz, durations are sample counts at the
//! configured sample rate, and spectral magnitudes are unsigned keys that
//! order as the magnitudes do.

pub mod aggregator;
pub mod analyzer;
pub mod config;
pub mod laws;
pub mod pipeline;
pub mod quantizer;
pub mod scheduler;
