//! A sine oscillator whose rate is bent, sample by sample, by a modulating signal.
use vstd::prelude::*;

use crate::sample::UNITY;
use crate::waveform::{
    phase_increment, phase_period, table_lookup, table_sample, OscillatorWaveform, Wavetables,
};

verus! {

/// The phase step for a modulating value `m`: the base step scaled by
/// `1 + m`, rounded down, modulo one period.
pub open spec fn modulated_step(phase_inc: int, m: int) -> int {
    (phase_inc * (UNITY + m) / (UNITY as int)) % phase_period()
}

pub struct Modulator {
    phase: u32,
    phase_inc: u32,
    mod_osc: i32,
}

impl Modulator {
    pub closed spec fn spec_phase(&self) -> u32 {
        self.phase
    }

    pub closed spec fn spec_phase_inc(&self) -> u32 {
        self.phase_inc
    }

    /// The last modulating value taken.
    pub closed spec fn spec_mod(&self) -> i32 {
        self.mod_osc
    }

    /// A modulator at phase 0 for a frequency in millihertz.
    pub fn new(frequency: u64, sample_rate: u32) -> (r: Self)
        requires
            sample_rate > 0,
        ensures
            r.spec_phase() == 0,
            r.spec_phase_inc() == phase_increment(frequency as int, sample_rate as int),
            r.spec_mod() == 0,
    {
        let num: u128 = (frequency as u128) * 0x1_0000_0000u128;
        let den: u128 = (sample_rate as u128) * 1000u128;
        let phase_inc = ((num / den) % 0x1_0000_0000u128) as u32;
        Modulator { phase: 0, phase_inc, mod_osc: 0 }
    }

    /// The sine at the current phase; the phase then moves on by the base
    /// step scaled by `1 + mod_oscillator`.
    pub fn next(&mut self, mod_oscillator: i32, tables: &Wavetables) -> (r: i32)
        requires
            tables.wf(),
        ensures
            r == table_sample(tables.table(OscillatorWaveform::Sine), old(self).spec_phase()),
            final(self).spec_phase() == (old(self).spec_phase() as int + modulated_step(
                old(self).spec_phase_inc() as int,
                mod_oscillator as int,
            )) % phase_period(),
            final(self).spec_phase_inc() == old(self).spec_phase_inc(),
            final(self).spec_mod() == mod_oscillator,
    {
        self.mod_osc = mod_oscillator;
        let value = table_lookup(tables.get(OscillatorWaveform::Sine), self.phase);
        let scale: i128 = UNITY as i128 + self.mod_osc as i128;
        proof {
            assert(-0x1_0000_0000_0000_0000i128 <= self.phase_inc as int * scale
                <= 0x1_0000_0000_0000_0000i128) by (nonlinear_arith)
                requires
                    0 <= self.phase_inc <= u32::MAX,
                    -2147483648 <= scale <= 2147516415,
            ;
            let p = self.phase_inc as int * scale;
            let q = p / 32768;
            assert(-0x1_0000_0000_0000_0000i128 <= q <= 0x1_0000_0000_0000_0000i128) by (nonlinear_arith)
                requires
                    -0x1_0000_0000_0000_0000i128 <= p <= 0x1_0000_0000_0000_0000i128,
                    q == p / 32768,
            ;
        }
        let bent: i128 = match (self.phase_inc as i128 * scale).checked_div_euclid(UNITY as i128) {
            Some(q) => q,
            None => 0,
        };
        let step: i128 = match bent.checked_rem_euclid(0x1_0000_0000i128) {
            Some(m) => m,
            None => 0,
        };
        proof {
            vstd::arithmetic::div_mod::lemma_mod_bound(bent as int, 0x1_0000_0000);
        }
        self.phase = ((self.phase as i128 + step) % 0x1_0000_0000i128) as u32;
        proof {
            vstd::arithmetic::div_mod::lemma_add_mod_noop(
                old(self).phase as int,
                bent as int,
                phase_period(),
            );
            vstd::arithmetic::div_mod::lemma_mod_twice(old(self).phase as int, phase_period());
        }
        value
    }

    /// A square wave that follows the sine's sign at the current phase.
    pub fn sine_wave(&self, tables: &Wavetables) -> (r: i32)
        requires
            tables.wf(),
        ensures
            r == if table_sample(tables.table(OscillatorWaveform::Sine), self.spec_phase()) >= 0 {
                UNITY as int
            } else {
                -UNITY as int
            },
    {
        if table_lookup(tables.get(OscillatorWaveform::Sine), self.phase) >= 0 {
            UNITY
        } else {
            -UNITY
        }
    }
}

} // verus!
