//! A polyphonic wavetable synthesizer engine in fixed-point arithmetic.
//!
//! Samples are Q15 integers (`UNITY` stands for an amplitude of 1.0), time is
//! counted in samples of a global clock, oscillator phase is a 32-bit
//! accumulator (one full turn is 2^32), and frequencies are in millihertz.
pub mod buffer;
pub mod decimate;
pub mod envelope;
pub mod key_state;
pub mod keys;
pub mod modulator;
pub mod note_state;
pub mod oscillator;
pub mod sample;
pub mod tremolo;
pub mod waveform;

pub use buffer::{AudioBuffer, AudioNode, WaveShaperNode};
pub use decimate::{Decimator, DownsampledAudioData};
pub use envelope::AmplitudeEnvelope;
pub use key_state::KeyStates;
pub use keys::{Config, NoteEvent, Scale};
pub use modulator::Modulator;
pub use note_state::NoteState;
pub use oscillator::{Oscillator, OscillatorBuilder};
pub use sample::UNITY;
pub use tremolo::{Tremolo, TremoloEffect, TremoloEffectBuilder};
pub use waveform::{OscillatorWaveform, WaveformGenerator, Wavetables, WAVETABLE_SIZE};
