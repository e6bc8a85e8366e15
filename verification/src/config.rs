//! The adjustable parameters of a transcription run.

use vstd::prelude::*;

verus! {

/// Largest window or frame length, in samples, that the arithmetic supports.
pub const MAX_SPAN: usize = 0xFFFF_FFFF;

/// Parameters shared by every stage of the pipeline.
#[derive(Clone, Copy, Debug, PartialEq, Eq, Structural)]
pub struct Config {
    /// Samples per second.
    pub sample_rate: u32,
    /// Samples in one analysis frame, which is also the number of bins.
    pub fft_size: usize,
    /// Samples in one aggregate window.
    pub aggregate_size: usize,
    /// Lowest dominant frequency that is retained, in hertz.
    pub floor_hz: u32,
    /// Highest dominant frequency that is retained, in hertz.
    pub ceiling_hz: u32,
    /// Synthesizer channel on which every note is played.
    pub channel: u32,
    /// Velocity of every note.
    pub velocity: u32,
}

impl Config {
    /// The values a configuration must have for the pipeline to be defined.
    pub open spec fn wf(&self) -> bool {
        &&& self.sample_rate > 0
        &&& 0 < self.fft_size <= MAX_SPAN
        &&& 0 < self.aggregate_size <= MAX_SPAN
        &&& self.floor_hz <= self.ceiling_hz
    }

    /// One-second windows of 44.1 kHz audio, 1024-sample frames, the band
    /// from 20 Hz to 20 kHz, channel 0 and velocity 100.
    pub fn standard() -> (cfg: Config)
        ensures
            cfg.wf(),
            cfg == (Config {
                sample_rate: 44100,
                fft_size: 1024,
                aggregate_size: 44100,
                floor_hz: 20,
                ceiling_hz: 20000,
                channel: 0,
                velocity: 100,
            }),
    {
        Config {
            sample_rate: 44100,
            fft_size: 1024,
            aggregate_size: 44100,
            floor_hz: 20,
            ceiling_hz: 20000,
            channel: 0,
            velocity: 100,
        }
    }

    /// Whether the configuration is well formed.
    pub fn is_valid(&self) -> (ok: bool)
        ensures
            ok == self.wf(),
    {
        self.sample_rate > 0 && self.fft_size > 0 && self.fft_size <= MAX_SPAN
            && self.aggregate_size > 0 && self.aggregate_size <= MAX_SPAN
            && self.floor_hz <= self.ceiling_hz
    }
}

} // verus!
