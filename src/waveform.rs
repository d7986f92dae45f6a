//! Wavetables and the phase-accumulating wavetable generator.
use vstd::prelude::*;

use crate::sample::{in_unit_range, UNITY};
use vstd::arithmetic::div_mod::lemma_div_multiples_vanish;

verus! {

/// Number of entries in each wavetable; one table spans one period.
pub const WAVETABLE_SIZE: usize = 1024;

/// Phase units per table step: the phase accumulator spans 2^32 per period.
pub const FRAC_ONE: u32 = 4194304;

/// One full period of the phase accumulator.
pub open spec fn phase_period() -> int {
    0x1_0000_0000
}

#[derive(Clone, Copy, Debug, PartialEq, Eq, Structural)]
pub enum OscillatorWaveform {
    Silence,
    Sine,
    Square,
    Sawtooth,
    Triangle,
}

/// Entry `i` of the square table: +1 over the first half period, -1 after.
pub open spec fn square_at(i: int) -> int {
    if i < WAVETABLE_SIZE / 2 {
        UNITY as int
    } else {
        -(UNITY as int)
    }
}

/// Entry `i` of the sawtooth table: a linear ramp from -1 towards 1.
pub open spec fn sawtooth_at(i: int) -> int {
    2 * (UNITY as int) * i / (WAVETABLE_SIZE as int) - UNITY as int
}

/// Entry `i` of the triangle table: up from -1 to 1 over the first half, back down after.
pub open spec fn triangle_at(i: int) -> int {
    if 2 * i < WAVETABLE_SIZE as int {
        4 * (UNITY as int) * i / (WAVETABLE_SIZE as int) - UNITY as int
    } else {
        3 * (UNITY as int) - 4 * (UNITY as int) * i / (WAVETABLE_SIZE as int)
    }
}

/// A table holds one period of `WAVETABLE_SIZE` samples within [-1, 1].
pub open spec fn table_wf(t: Seq<i32>) -> bool {
    &&& t.len() == WAVETABLE_SIZE
    &&& forall|i: int| 0 <= i < t.len() ==> #[trigger] in_unit_range(t[i] as int)
}

/// Linear interpolation between `a` and `b` at `frac / FRAC_ONE`, rounded down.
pub open spec fn interpolate(a: int, b: int, frac: int) -> int {
    ((a + UNITY) * (FRAC_ONE - frac) + (b + UNITY) * frac) / (FRAC_ONE as int) - UNITY
}

/// The table's value at a phase: interpolated between the entry the phase
/// falls on and the next one, wrapping at the end of the table.
pub open spec fn table_sample(t: Seq<i32>, phase: u32) -> int {
    let index = phase as int / FRAC_ONE as int;
    let frac = phase as int % FRAC_ONE as int;
    interpolate(t[index] as int, t[(index + 1) % (WAVETABLE_SIZE as int)] as int, frac)
}

/// The phase increment per sample for a frequency in millihertz, modulo one period.
pub open spec fn phase_increment(frequency_mhz: int, sample_rate: int) -> int {
    (frequency_mhz * phase_period() / (sample_rate * 1000)) % phase_period()
}

/// The five precomputed one-period tables, shared by every generator.
pub struct Wavetables {
    silence: Vec<i32>,
    sine: Vec<i32>,
    square: Vec<i32>,
    sawtooth: Vec<i32>,
    triangle: Vec<i32>,
}

impl Wavetables {
    pub closed spec fn wf(&self) -> bool {
        &&& table_wf(self.silence@)
        &&& table_wf(self.sine@)
        &&& table_wf(self.square@)
        &&& table_wf(self.sawtooth@)
        &&& table_wf(self.triangle@)
    }

    /// The table of a waveform.
    pub closed spec fn table(&self, w: OscillatorWaveform) -> Seq<i32> {
        match w {
            OscillatorWaveform::Silence => self.silence@,
            OscillatorWaveform::Sine => self.sine@,
            OscillatorWaveform::Square => self.square@,
            OscillatorWaveform::Sawtooth => self.sawtooth@,
            OscillatorWaveform::Triangle => self.triangle@,
        }
    }

    /// Builds the table set around a sine table sampled by the caller. The
    /// other four are computed in closed form. Returns `None` when the sine
    /// table has the wrong length or a value outside [-1, 1].
    pub fn new(sine: Vec<i32>) -> (r: Option<Wavetables>)
        ensures
            r is Some <==> table_wf(sine@),
            r matches Some(t) ==> {
                &&& t.wf()
                &&& t.table(OscillatorWaveform::Sine) == sine@
                &&& forall|i: int| 0 <= i < WAVETABLE_SIZE ==> {
                    &&& #[trigger] t.table(OscillatorWaveform::Silence)[i] == 0
                    &&& t.table(OscillatorWaveform::Square)[i] == square_at(i)
                    &&& t.table(OscillatorWaveform::Sawtooth)[i] == sawtooth_at(i)
                    &&& t.table(OscillatorWaveform::Triangle)[i] == triangle_at(i)
                }
            },
    {
        if sine.len() != WAVETABLE_SIZE {
            return None;
        }
        let mut k: usize = 0;
        while k < sine.len()
            invariant
                sine@.len() == WAVETABLE_SIZE,
                k <= sine@.len(),
                forall|i: int| 0 <= i < k ==> #[trigger] in_unit_range(sine@[i] as int),
            decreases sine@.len() - k,
        {
            if sine[k] < -UNITY || sine[k] > UNITY {
                assert(!in_unit_range(sine@[k as int] as int));
                return None;
            }
            k = k + 1;
        }
        let mut silence: Vec<i32> = Vec::new();
        let mut square: Vec<i32> = Vec::new();
        let mut sawtooth: Vec<i32> = Vec::new();
        let mut triangle: Vec<i32> = Vec::new();
        let mut i: usize = 0;
        while i < WAVETABLE_SIZE
            invariant
                i <= WAVETABLE_SIZE,
                silence@.len() == i,
                square@.len() == i,
                sawtooth@.len() == i,
                triangle@.len() == i,
                forall|j: int| 0 <= j < i ==> {
                    &&& #[trigger] silence@[j] == 0
                    &&& square@[j] == square_at(j)
                    &&& sawtooth@[j] == sawtooth_at(j)
                    &&& triangle@[j] == triangle_at(j)
                },
                forall|j: int| 0 <= j < i ==> in_unit_range(#[trigger] square@[j] as int),
                forall|j: int| 0 <= j < i ==> in_unit_range(#[trigger] sawtooth@[j] as int),
                forall|j: int| 0 <= j < i ==> in_unit_range(#[trigger] triangle@[j] as int),
            decreases WAVETABLE_SIZE - i,
        {
            let x = i as i32;
            proof {
                let ii = i as int;
                lemma_div_multiples_vanish(64 * ii, WAVETABLE_SIZE as int);
                lemma_div_multiples_vanish(128 * ii, WAVETABLE_SIZE as int);
                assert(2 * (UNITY as int) * ii == 1024 * (64 * ii)) by (nonlinear_arith);
                assert(4 * (UNITY as int) * ii == 1024 * (128 * ii)) by (nonlinear_arith);
            }
            silence.push(0);
            square.push(if i < WAVETABLE_SIZE / 2 { UNITY } else { -UNITY });
            sawtooth.push(64 * x - UNITY);
            let tri = if 2 * i < WAVETABLE_SIZE { 128 * x - UNITY } else { 3 * UNITY - 128 * x };
            triangle.push(tri);
            i = i + 1;
        }
        let t = Wavetables { silence, sine, square, sawtooth, triangle };
        assert forall|i: int| 0 <= i < WAVETABLE_SIZE implies {
            &&& #[trigger] t.table(OscillatorWaveform::Silence)[i] == 0
            &&& t.table(OscillatorWaveform::Square)[i] == square_at(i)
            &&& t.table(OscillatorWaveform::Sawtooth)[i] == sawtooth_at(i)
            &&& t.table(OscillatorWaveform::Triangle)[i] == triangle_at(i)
        } by {
            assert(silence@[i] == 0);
        }
        assert(table_wf(t.silence@)) by {
            assert forall|i: int| 0 <= i < t.silence@.len() implies #[trigger] in_unit_range(
                t.silence@[i] as int,
            ) by {
                assert(silence@[i] == 0);
            }
        }
        assert(table_wf(t.square@)) by {
            assert forall|i: int| 0 <= i < t.square@.len() implies #[trigger] in_unit_range(
                t.square@[i] as int,
            ) by {
                assert(in_unit_range(square@[i] as int));
            }
        }
        assert(table_wf(t.sawtooth@)) by {
            assert forall|i: int| 0 <= i < t.sawtooth@.len() implies #[trigger] in_unit_range(
                t.sawtooth@[i] as int,
            ) by {
                assert(in_unit_range(sawtooth@[i] as int));
            }
        }
        assert(table_wf(t.triangle@)) by {
            assert forall|i: int| 0 <= i < t.triangle@.len() implies #[trigger] in_unit_range(
                t.triangle@[i] as int,
            ) by {
                assert(in_unit_range(triangle@[i] as int));
            }
        }
        Some(t)
    }

    /// The table that a waveform plays.
    pub fn get(&self, w: OscillatorWaveform) -> (r: &Vec<i32>)
        ensures
            r@ == self.table(w),
            self.wf() ==> table_wf(r@),
    {
        match w {
            OscillatorWaveform::Silence => &self.silence,
            OscillatorWaveform::Sine => &self.sine,
            OscillatorWaveform::Square => &self.square,
            OscillatorWaveform::Sawtooth => &self.sawtooth,
            OscillatorWaveform::Triangle => &self.triangle,
        }
    }
}

/// Interpolation stays between its two end points.
pub proof fn lemma_interpolate_bounds(a: int, b: int, frac: int)
    requires
        in_unit_range(a),
        in_unit_range(b),
        0 <= frac < FRAC_ONE,
    ensures
        in_unit_range(interpolate(a, b, frac)),
{
    let ua = a + UNITY;
    let ub = b + UNITY;
    let one = FRAC_ONE as int;
    let lo = if ua <= ub { ua } else { ub };
    let hi = if ua <= ub { ub } else { ua };
    let w = ua * (one - frac) + ub * frac;
    assert(lo * one <= w <= hi * one) by (nonlinear_arith)
        requires
            lo <= ua <= hi,
            lo <= ub <= hi,
            0 <= frac < one,
            w == ua * (one - frac) + ub * frac,
    ;
    assert(lo <= w / one <= hi) by (nonlinear_arith)
        requires
            lo * one <= w <= hi * one,
            one > 0,
    ;
}

/// A table lookup at any phase lands in [-1, 1].
pub proof fn lemma_table_sample_bounds(t: Seq<i32>, phase: u32)
    requires
        table_wf(t),
    ensures
        in_unit_range(table_sample(t, phase)),
{
    let index = phase as int / FRAC_ONE as int;
    let next = (index + 1) % (WAVETABLE_SIZE as int);
    assert(0 <= index < WAVETABLE_SIZE);
    assert(in_unit_range(t[index] as int));
    assert(in_unit_range(t[next] as int));
    lemma_interpolate_bounds(t[index] as int, t[next] as int, phase as int % FRAC_ONE as int);
}

/// The value of a one-period table at a phase, interpolated.
pub fn table_lookup(table: &Vec<i32>, phase: u32) -> (r: i32)
    requires
        table_wf(table@),
    ensures
        r as int == table_sample(table@, phase),
        in_unit_range(r as int),
{
    proof {
        lemma_table_sample_bounds(table@, phase);
    }
    let index: usize = (phase / FRAC_ONE) as usize;
    let frac: u32 = phase % FRAC_ONE;
    let next: usize = (index + 1) % WAVETABLE_SIZE;
    proof {
        let nx = (index as int + 1) % (WAVETABLE_SIZE as int);
        assert(in_unit_range(table@[index as int] as int));
        assert(in_unit_range(table@[nx] as int));
        let fr = frac as int;
        let ua = table@[index as int] as int + UNITY;
        let ub = table@[nx] as int + UNITY;
        assert(0 <= ua * (FRAC_ONE - fr) <= 65536 * (FRAC_ONE as int)) by (nonlinear_arith)
            requires
                0 <= ua <= 65536,
                0 <= fr < FRAC_ONE,
        ;
        assert(0 <= ub * fr <= 65536 * (FRAC_ONE as int)) by (nonlinear_arith)
            requires
                0 <= ub <= 65536,
                0 <= fr < FRAC_ONE,
        ;
    }
    let a: u64 = (table[index] as i64 + UNITY as i64) as u64;
    let b: u64 = (table[next] as i64 + UNITY as i64) as u64;
    let w: u64 = a * ((FRAC_ONE - frac) as u64) + b * (frac as u64);
    ((w / (FRAC_ONE as u64)) as i64 - UNITY as i64) as i32
}

/// A single periodic signal read from a wavetable with a phase accumulator.
#[derive(Debug)]
pub struct WaveformGenerator {
    waveform: OscillatorWaveform,
    phase: u32,
    phase_inc: u32,
    frequency: u64,
    sample_rate: u32,
}

impl WaveformGenerator {
    /// A positive sample rate, and the phase step that the frequency gives at it.
    pub open spec fn wf(&self) -> bool {
        &&& self.spec_sample_rate() > 0
        &&& self.spec_phase_inc() == phase_increment(
            self.spec_frequency() as int,
            self.spec_sample_rate() as int,
        )
    }

    pub closed spec fn spec_waveform(&self) -> OscillatorWaveform {
        self.waveform
    }

    /// The current phase, as a fraction of 2^32 of one period.
    pub closed spec fn spec_phase(&self) -> u32 {
        self.phase
    }

    pub closed spec fn spec_phase_inc(&self) -> u32 {
        self.phase_inc
    }

    pub closed spec fn spec_sample_rate(&self) -> u32 {
        self.sample_rate
    }

    pub closed spec fn spec_frequency(&self) -> u64 {
        self.frequency
    }

    fn compute_phase_inc(frequency: u64, sample_rate: u32) -> (r: u32)
        requires
            sample_rate > 0,
        ensures
            r == phase_increment(frequency as int, sample_rate as int),
    {
        let num: u128 = (frequency as u128) * 0x1_0000_0000u128;
        let den: u128 = (sample_rate as u128) * 1000u128;
        ((num / den) % 0x1_0000_0000u128) as u32
    }

    /// A generator at phase 0 for a frequency in millihertz.
    pub fn new(waveform: OscillatorWaveform, frequency: u64, sample_rate: u32) -> (r: Self)
        requires
            sample_rate > 0,
        ensures
            r.wf(),
            r.spec_waveform() == waveform,
            r.spec_phase() == 0,
            r.spec_phase_inc() == phase_increment(frequency as int, sample_rate as int),
            r.spec_frequency() == frequency,
            r.spec_sample_rate() == sample_rate,
    {
        let phase_inc = Self::compute_phase_inc(frequency, sample_rate);
        WaveformGenerator { waveform, phase: 0, phase_inc, frequency, sample_rate }
    }

    pub fn get_waveform(&self) -> (r: OscillatorWaveform)
        ensures
            r == self.spec_waveform(),
    {
        self.waveform
    }

    /// The next interpolated sample; the phase advances by one step.
    pub fn get_sample(&mut self, tables: &Wavetables) -> (r: i32)
        requires
            tables.wf(),
        ensures
            r as int == table_sample(tables.table(old(self).spec_waveform()), old(self).spec_phase()),
            in_unit_range(r as int),
            final(self).wf() == old(self).wf(),
            final(self).spec_phase() == (old(self).spec_phase() as int + old(self).spec_phase_inc() as int)
                % phase_period(),
            final(self).spec_waveform() == old(self).spec_waveform(),
            final(self).spec_phase_inc() == old(self).spec_phase_inc(),
            final(self).spec_frequency() == old(self).spec_frequency(),
            final(self).spec_sample_rate() == old(self).spec_sample_rate(),
    {
        let r = table_lookup(tables.get(self.waveform), self.phase);
        self.update_phase();
        r
    }

    /// Advances the phase by one step, wrapping at the end of the period.
    pub fn update_phase(&mut self)
        ensures
            final(self).wf() == old(self).wf(),
            final(self).spec_phase() == (old(self).spec_phase() as int + old(self).spec_phase_inc() as int)
                % phase_period(),
            final(self).spec_waveform() == old(self).spec_waveform(),
            final(self).spec_phase_inc() == old(self).spec_phase_inc(),
            final(self).spec_frequency() == old(self).spec_frequency(),
            final(self).spec_sample_rate() == old(self).spec_sample_rate(),
    {
        self.phase = ((self.phase as u64 + self.phase_inc as u64) % 0x1_0000_0000u64) as u32;
    }

    /// Changes the frequency (millihertz) and keeps the phase.
    pub fn set_frequency(&mut self, frequency: u64)
        requires
            old(self).wf(),
        ensures
            final(self).wf(),
            final(self).spec_frequency() == frequency,
            final(self).spec_phase_inc() == phase_increment(
                frequency as int,
                old(self).spec_sample_rate() as int,
            ),
            final(self).spec_phase() == old(self).spec_phase(),
            final(self).spec_waveform() == old(self).spec_waveform(),
            final(self).spec_sample_rate() == old(self).spec_sample_rate(),
    {
        self.phase_inc = Self::compute_phase_inc(frequency, self.sample_rate);
        self.frequency = frequency;
    }

    pub fn get_sample_rate(&self) -> (r: u32)
        ensures
            r == self.spec_sample_rate(),
            self.wf() ==> r > 0,
    {
        self.sample_rate
    }

    /// The frequency in millihertz.
    pub fn get_frequency(&self) -> (r: u64)
        ensures
            r == self.spec_frequency(),
    {
        self.frequency
    }
}

} // verus!
