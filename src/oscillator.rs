//! A voice: one sounding note made of a generator, an envelope and the
//! shared tremolo.
use vstd::prelude::*;

use crate::envelope::AmplitudeEnvelope;
use crate::sample::{div_floor, UNITY};
use crate::tremolo::{modulate, position_after_steps, TremoloEffect};
use crate::waveform::{
    phase_increment, phase_period, table_sample, OscillatorWaveform, WaveformGenerator, Wavetables,
};

verus! {

/// Envelope times are given in milliseconds, levels in thousandths.
pub const MILLIS: u32 = 1000;

/// A duration in milliseconds as a whole number of samples, held to `u32`.
pub open spec fn ms_to_samples(ms: int, sample_rate: int) -> int {
    let n = ms * sample_rate / (MILLIS as int);
    if n > u32::MAX {
        u32::MAX as int
    } else {
        n
    }
}

/// A level in thousandths as a Q15 gain, held to [0, 1].
pub open spec fn level_to_gain(level: int) -> int {
    let l = if level > MILLIS {
        MILLIS as int
    } else {
        level
    };
    l * UNITY / (MILLIS as int)
}

/// The generator phase after `k` more samples.
pub open spec fn phase_after(phase: int, inc: int, k: int) -> int {
    (phase + k * inc) % phase_period()
}

/// The phase stays within one period, however many steps are taken: as a
/// fraction of the period it lies in [0, 1).
pub proof fn lemma_phase_in_period(phase: int, inc: int, k: int)
    ensures
        0 <= phase_after(phase, inc, k) < phase_period(),
{
    vstd::arithmetic::div_mod::lemma_mod_bound(phase + k * inc, phase_period());
}

/// How long the note has sounded at `t`; never negative.
pub open spec fn elapsed(t: int, start: int) -> int {
    if t >= start {
        t - start
    } else {
        0
    }
}

/// One sounding note: its generator, its envelope and the time it started
/// (`None` while silent).
#[derive(Debug)]
pub struct Oscillator {
    waveform_generator: WaveformGenerator,
    envelope: AmplitudeEnvelope,
    note: String,
    start_time: Option<u64>,
}

impl Oscillator {
    pub closed spec fn wf(&self) -> bool {
        &&& self.waveform_generator.wf()
        &&& self.envelope.wf()
    }

    pub closed spec fn generator(&self) -> WaveformGenerator {
        self.waveform_generator
    }

    pub closed spec fn spec_envelope(&self) -> AmplitudeEnvelope {
        self.envelope
    }

    pub closed spec fn spec_note(&self) -> Seq<char> {
        self.note@
    }

    pub closed spec fn spec_start_time(&self) -> Option<u64> {
        self.start_time
    }

    pub open spec fn spec_waveform(&self) -> OscillatorWaveform {
        self.generator().spec_waveform()
    }

    pub open spec fn spec_frequency(&self) -> u64 {
        self.generator().spec_frequency()
    }

    /// Sample `k` of the block that starts at `current_time`: the table read
    /// at the phase reached after `k` steps, scaled by the envelope at that
    /// sample's time since the note started, then through the tremolo when it
    /// is enabled, at the position it reaches after `offset + k` samples.
    pub open spec fn block_sample(
        &self,
        tables: Wavetables,
        tremolo: TremoloEffect,
        current_time: int,
        k: int,
        offset: nat,
    ) -> int {
        let g = self.generator();
        let raw = table_sample(
            tables.table(g.spec_waveform()),
            phase_after(g.spec_phase() as int, g.spec_phase_inc() as int, k) as u32,
        );
        let start = match self.spec_start_time() {
            Some(s) => s as int,
            None => current_time,
        };
        let dry = raw * self.spec_envelope().amplitude(elapsed(current_time + k, start)) / (
        UNITY as int);
        if tremolo.spec_enabled() {
            modulate(
                dry,
                tremolo.gain_at_index(
                    position_after_steps(tremolo.position(), tremolo.spec_cycle(), (offset + k) as nat).0,
                ),
            )
        } else {
            dry
        }
    }

    /// A silent voice for `note`; `frequency` is in millihertz, envelope times
    /// in milliseconds, the sustain level in thousandths (clamped to 1.0).
    pub fn new(
        frequency: u64,
        sample_rate: u32,
        waveform: OscillatorWaveform,
        note: String,
        attack_time: u32,
        decay_time: u32,
        sustain_level: u32,
        release_time: u32,
    ) -> (r: Self)
        requires
            sample_rate > 0,
        ensures
            r.wf(),
            r.spec_waveform() == waveform,
            r.spec_frequency() == frequency,
            r.generator().spec_phase() == 0,
            r.generator().spec_phase_inc() == phase_increment(frequency as int, sample_rate as int),
            r.generator().spec_sample_rate() == sample_rate,
            r.spec_note() == note@,
            r.spec_start_time() is None,
            r.spec_envelope() == (AmplitudeEnvelope {
                attack_time: ms_to_samples(attack_time as int, sample_rate as int) as u32,
                decay_time: ms_to_samples(decay_time as int, sample_rate as int) as u32,
                sustain_level: level_to_gain(sustain_level as int) as u32,
                release_time: ms_to_samples(release_time as int, sample_rate as int) as u32,
            }),
    {
        let sustain = if sustain_level > MILLIS { MILLIS } else { sustain_level };
        proof {
            assert(0 <= sustain * 32768 / 1000 <= 32768) by (nonlinear_arith)
                requires
                    sustain <= 1000,
            ;
        }
        let envelope = AmplitudeEnvelope {
            attack_time: Self::to_samples(attack_time, sample_rate),
            decay_time: Self::to_samples(decay_time, sample_rate),
            sustain_level: (sustain as u64 * UNITY as u64 / MILLIS as u64) as u32,
            release_time: Self::to_samples(release_time, sample_rate),
        };
        Oscillator {
            waveform_generator: WaveformGenerator::new(waveform, frequency, sample_rate),
            envelope,
            note,
            start_time: None,
        }
    }

    fn to_samples(ms: u32, sample_rate: u32) -> (r: u32)
        ensures
            r == ms_to_samples(ms as int, sample_rate as int),
    {
        proof {
            assert(ms as int * sample_rate as int <= u64::MAX) by (nonlinear_arith)
                requires
                    ms <= u32::MAX,
                    sample_rate <= u32::MAX,
            ;
        }
        let n: u64 = ms as u64 * sample_rate as u64 / MILLIS as u64;
        if n > u32::MAX as u64 {
            u32::MAX
        } else {
            n as u32
        }
    }

    pub fn builder() -> (r: OscillatorBuilder)
        ensures
            r.is_default(),
    {
        OscillatorBuilder::default()
    }

    /// One block of `num_samples` samples starting at `current_time`; the
    /// generator and, when enabled, the tremolo move on by `num_samples`.
    pub fn generate_wave(
        &mut self,
        current_time: u64,
        num_samples: usize,
        tables: &Wavetables,
        tremolo: &mut TremoloEffect,
    ) -> (r: Vec<i32>)
        requires
            old(self).wf(),
            old(tremolo).wf(),
            tables.wf(),
            current_time + num_samples <= u64::MAX,
        ensures
            final(self).wf(),
            final(tremolo).wf(),
            r@.len() == num_samples,
            forall|k: int|
                0 <= k < num_samples ==> #[trigger] r@[k] == old(self).block_sample(
                    *tables,
                    *old(tremolo),
                    current_time as int,
                    k,
                    0,
                ),
            final(self).generator().spec_phase() == phase_after(
                old(self).generator().spec_phase() as int,
                old(self).generator().spec_phase_inc() as int,
                num_samples as int,
            ),
            final(self).spec_waveform() == old(self).spec_waveform(),
            final(self).spec_frequency() == old(self).spec_frequency(),
            final(self).spec_note() == old(self).spec_note(),
            final(self).spec_start_time() == old(self).spec_start_time(),
            final(self).spec_envelope() == old(self).spec_envelope(),
            final(self).generator().spec_sample_rate() == old(self).generator().spec_sample_rate(),
            old(tremolo).same_settings(*final(tremolo)),
            final(tremolo).position() == if old(tremolo).spec_enabled() {
                position_after_steps(old(tremolo).position(), old(tremolo).spec_cycle(), num_samples as nat)
            } else {
                old(tremolo).position()
            },
    {
        let ghost osc0 = *self;
        let ghost trem0 = *tremolo;
        let mut output: Vec<i32> = Vec::with_capacity(num_samples);
        let start_time = match self.start_time {
            Some(s) => s,
            None => current_time,
        };
        let sample_rate = self.waveform_generator.get_sample_rate();
        let mut i: usize = 0;
        while i < num_samples
            invariant
                i <= num_samples,
                current_time + num_samples <= u64::MAX,
                tables.wf(),
                self.wf(),
                tremolo.wf(),
                output@.len() == i,
                start_time == match osc0.spec_start_time() {
                    Some(s) => s,
                    None => current_time,
                },
                self.envelope == osc0.envelope,
                self.note == osc0.note,
                self.start_time == osc0.start_time,
                self.waveform_generator.spec_waveform() == osc0.spec_waveform(),
                self.waveform_generator.spec_frequency() == osc0.spec_frequency(),
                self.waveform_generator.spec_phase_inc() == osc0.generator().spec_phase_inc(),
                self.waveform_generator.spec_sample_rate() == osc0.generator().spec_sample_rate(),
                self.waveform_generator.spec_phase() == phase_after(
                    osc0.generator().spec_phase() as int,
                    osc0.generator().spec_phase_inc() as int,
                    i as int,
                ),
                trem0.same_settings(*tremolo),
                tremolo.position() == if trem0.spec_enabled() {
                    position_after_steps(trem0.position(), trem0.spec_cycle(), i as nat)
                } else {
                    trem0.position()
                },
                forall|k: int|
                    0 <= k < i ==> #[trigger] output@[k] == osc0.block_sample(
                        *tables,
                        trem0,
                        current_time as int,
                        k,
                        0,
                    ),
            decreases num_samples - i,
        {
            let sample_time: u64 = current_time + i as u64;
            let raw = self.waveform_generator.get_sample(tables);
            let since: u64 = if sample_time >= start_time {
                sample_time - start_time
            } else {
                0
            };
            let gain = self.envelope.amplitude_at_time(since);
            proof {
                let p = raw as int * gain as int;
                assert(-1073741824 <= p <= 1073741824) by (nonlinear_arith)
                    requires
                        -32768 <= raw <= 32768,
                        0 <= gain <= 32768,
                        p == raw as int * gain as int,
                ;
                assert(-32768 <= p / 32768 <= 32768) by (nonlinear_arith)
                    requires
                        -1073741824 <= p <= 1073741824,
                ;
            }
            let dry = div_floor(raw as i64 * gain as i64, UNITY as i64) as i32;
            let out = tremolo.process(dry, sample_rate);
            proof {
                let inc = osc0.generator().spec_phase_inc() as int;
                let ph0 = osc0.generator().spec_phase() as int;
                vstd::arithmetic::div_mod::lemma_add_mod_noop(ph0 + i * inc, inc, phase_period());
                vstd::arithmetic::div_mod::lemma_mod_twice(ph0 + i * inc, phase_period());
                assert(ph0 + i * inc + inc == ph0 + (i + 1) * inc) by (nonlinear_arith);
                assert(inc % phase_period() == inc);
            }
            output.push(out);
            i = i + 1;
        }
        output
    }

    /// Arms the voice: its envelope counts from `start_time`.
    pub fn start_note(&mut self, start_time: u64)
        ensures
            final(self).wf() == old(self).wf(),
            final(self).spec_start_time() == Some(start_time),
            final(self).generator() == old(self).generator(),
            final(self).spec_envelope() == old(self).spec_envelope(),
            final(self).spec_note() == old(self).spec_note(),
    {
        self.start_time = Some(start_time);
    }

    /// Marks the voice silent once its envelope has run out at `current_time`.
    pub fn release_note(&mut self, current_time: u64)
        requires
            old(self).wf(),
        ensures
            final(self).wf(),
            final(self).spec_start_time() == match old(self).spec_start_time() {
                Some(s) => if old(self).spec_envelope().amplitude(elapsed(current_time as int, s as int)) <= 0 {
                    None
                } else {
                    Some(s)
                },
                None => None,
            },
            final(self).generator() == old(self).generator(),
            final(self).spec_envelope() == old(self).spec_envelope(),
            final(self).spec_note() == old(self).spec_note(),
    {
        if let Some(start_time) = self.start_time {
            let since = if current_time >= start_time {
                current_time - start_time
            } else {
                0
            };
            if self.envelope.amplitude_at_time(since) <= 0 {
                self.start_time = None;
            }
        }
    }

    /// Switches to another waveform: a fresh generator at the same frequency, phase 0.
    pub fn set_waveform(&mut self, waveform: OscillatorWaveform)
        requires
            old(self).wf(),
        ensures
            final(self).wf(),
            final(self).spec_waveform() == waveform,
            final(self).spec_frequency() == old(self).spec_frequency(),
            final(self).generator().spec_phase() == 0,
            final(self).generator().spec_phase_inc() == old(self).generator().spec_phase_inc(),
            final(self).generator().spec_sample_rate() == old(self).generator().spec_sample_rate(),
            final(self).spec_envelope() == old(self).spec_envelope(),
            final(self).spec_note() == old(self).spec_note(),
            final(self).spec_start_time() == old(self).spec_start_time(),
    {
        self.waveform_generator = WaveformGenerator::new(
            waveform,
            self.waveform_generator.get_frequency(),
            self.waveform_generator.get_sample_rate(),
        );
    }

    /// Changes the frequency (millihertz) and keeps the phase.
    pub fn set_frequency(&mut self, frequency: u64)
        requires
            old(self).wf(),
        ensures
            final(self).wf(),
            final(self).spec_frequency() == frequency,
            final(self).spec_waveform() == old(self).spec_waveform(),
            final(self).generator().spec_phase() == old(self).generator().spec_phase(),
            final(self).generator().spec_phase_inc() == phase_increment(
                frequency as int,
                old(self).generator().spec_sample_rate() as int,
            ),
            final(self).generator().spec_sample_rate() == old(self).generator().spec_sample_rate(),
            final(self).spec_envelope() == old(self).spec_envelope(),
            final(self).spec_note() == old(self).spec_note(),
            final(self).spec_start_time() == old(self).spec_start_time(),
    {
        self.waveform_generator.set_frequency(frequency);
    }

    pub fn get_frequency(&self) -> (r: u64)
        ensures
            r == self.spec_frequency(),
    {
        self.waveform_generator.get_frequency()
    }

    /// The note this voice plays.
    pub fn get_note(&self) -> (r: &String)
        ensures
            r@ == self.spec_note(),
    {
        &self.note
    }

    pub fn get_waveform(&self) -> (r: OscillatorWaveform)
        ensures
            r == self.spec_waveform(),
    {
        self.waveform_generator.get_waveform()
    }
}

/// Settings gathered before an `Oscillator` is built: frequency in
/// millihertz, envelope times in milliseconds, sustain level in thousandths.
#[derive(Debug)]
pub struct OscillatorBuilder {
    pub frequency: u64,
    pub sample_rate: u32,
    pub waveform: OscillatorWaveform,
    pub note: String,
    pub attack_time: u32,
    pub decay_time: u32,
    pub sustain_level: u32,
    pub release_time: u32,
}

impl OscillatorBuilder {
    /// A4 as a sine at 440 Hz and 44.1 kHz; attack 100 ms, decay 100 ms,
    /// sustain 0.7, release 200 ms.
    pub open spec fn is_default(&self) -> bool {
        &&& self.frequency == 440000
        &&& self.sample_rate == 44100
        &&& self.waveform == OscillatorWaveform::Sine
        &&& self.note@ == "A4"@
        &&& self.attack_time == 100
        &&& self.decay_time == 100
        &&& self.sustain_level == 700
        &&& self.release_time == 200
    }

    /// The voice these settings describe, silent until started.
    pub fn build(self) -> (r: Oscillator)
        requires
            self.sample_rate > 0,
        ensures
            r.wf(),
            r.spec_waveform() == self.waveform,
            r.spec_frequency() == self.frequency,
            r.generator().spec_phase() == 0,
            r.generator().spec_phase_inc() == phase_increment(
                self.frequency as int,
                self.sample_rate as int,
            ),
            r.generator().spec_sample_rate() == self.sample_rate,
            r.spec_note() == self.note@,
            r.spec_start_time() is None,
            r.spec_envelope() == (AmplitudeEnvelope {
                attack_time: ms_to_samples(self.attack_time as int, self.sample_rate as int) as u32,
                decay_time: ms_to_samples(self.decay_time as int, self.sample_rate as int) as u32,
                sustain_level: level_to_gain(self.sustain_level as int) as u32,
                release_time: ms_to_samples(self.release_time as int, self.sample_rate as int) as u32,
            }),
    {
        Oscillator::new(
            self.frequency,
            self.sample_rate,
            self.waveform,
            self.note,
            self.attack_time,
            self.decay_time,
            self.sustain_level,
            self.release_time,
        )
    }

    /// Sets the frequency in millihertz.
    pub fn frequency(self, frequency: u64) -> (r: Self)
        ensures
            r == (OscillatorBuilder { frequency, ..self }),
    {
        OscillatorBuilder { frequency, ..self }
    }

    pub fn waveform(self, waveform: OscillatorWaveform) -> (r: Self)
        ensures
            r == (OscillatorBuilder { waveform, ..self }),
    {
        OscillatorBuilder { waveform, ..self }
    }

    /// Sets the attack time in milliseconds.
    pub fn attack_time(self, attack_time: u32) -> (r: Self)
        ensures
            r == (OscillatorBuilder { attack_time, ..self }),
    {
        OscillatorBuilder { attack_time, ..self }
    }

    /// Sets the release time in milliseconds.
    pub fn release_time(self, release_time: u32) -> (r: Self)
        ensures
            r == (OscillatorBuilder { release_time, ..self }),
    {
        OscillatorBuilder { release_time, ..self }
    }
}

impl Default for OscillatorBuilder {
    fn default() -> (r: Self)
        ensures
            r.is_default(),
    {
        OscillatorBuilder {
            frequency: 440000,
            sample_rate: 44100,
            waveform: OscillatorWaveform::Sine,
            note: String::from_str("A4"),
            attack_time: 100,
            decay_time: 100,
            sustain_level: 700,
            release_time: 200,
        }
    }
}

} // verus!
