//! The tremolo: a low-frequency gain table that modulates the amplitude, and
//! the effect around it that every voice shares.
use vstd::prelude::*;

use crate::sample::{div_floor, floor_div_wide, in_unit_range, saturate, saturate_wide, UNITY};
use crate::waveform::{table_wf, OscillatorWaveform, Wavetables};

verus! {

/// Number of entries in the tremolo's gain table.
pub const TREMOLO_TABLE_SIZE: usize = 1024;

/// Rates and depths are fixed point with this scale: a depth of 1000 is 1.0,
/// a rate of 1000 is 1 Hz.
pub const SCALE_FACTOR: u32 = 1000;

/// The gain for one sine table value: `1 - depth * sin`.
pub open spec fn gain_at(depth: int, sine_value: int) -> int {
    UNITY - depth * sine_value / (SCALE_FACTOR as int)
}

/// How many samples the tremolo stays on one table entry: the sample rate
/// over the rate, rounded down. A rate of zero never moves on.
pub open spec fn samples_per_step(rate: int, sample_rate: int) -> int {
    if rate == 0 {
        u64::MAX as int
    } else {
        sample_rate * (SCALE_FACTOR as int) / rate
    }
}

/// The tremolo's output for one sample and gain: `sample * gain`, held to `i32`.
pub open spec fn modulate(sample: int, gain: int) -> int {
    saturate(sample * gain / (UNITY as int))
}

/// The table position (index, counter) after one more sample, for a step of
/// `cycle` samples per table entry.
pub open spec fn step_position(pos: (int, int), cycle: int) -> (int, int) {
    if pos.1 + 1 >= cycle {
        ((pos.0 + 1) % (TREMOLO_TABLE_SIZE as int), 0)
    } else {
        (pos.0, pos.1 + 1)
    }
}

/// The table position after `n` more samples.
pub open spec fn position_after_steps(pos: (int, int), cycle: int, n: nat) -> (int, int)
    decreases n,
{
    if n == 0 {
        pos
    } else {
        step_position(position_after_steps(pos, cycle, (n - 1) as nat), cycle)
    }
}

/// A low-frequency oscillator that scales each sample by a gain read from a
/// table of one sine period.
#[derive(Debug)]
pub struct Tremolo {
    rate: u32,
    depth: u32,
    sample_rate: u32,
    sine: Vec<i32>,
    tremolo_table: Vec<i64>,
    table_index: usize,
    samples_per_tremolo_cycle: u64,
    sample_counter: u64,
}

impl Tremolo {
    pub closed spec fn wf(&self) -> bool {
        &&& table_wf(self.sine@)
        &&& self.tremolo_table@.len() == TREMOLO_TABLE_SIZE
        &&& forall|i: int|
            0 <= i < TREMOLO_TABLE_SIZE ==> #[trigger] self.tremolo_table@[i] == gain_at(
                self.depth as int,
                self.sine@[i] as int,
            )
        &&& self.samples_per_tremolo_cycle == samples_per_step(
            self.rate as int,
            self.sample_rate as int,
        )
        &&& self.table_index < TREMOLO_TABLE_SIZE
        &&& self.sample_counter < u64::MAX
    }

    pub closed spec fn spec_rate(&self) -> u32 {
        self.rate
    }

    pub closed spec fn spec_depth(&self) -> u32 {
        self.depth
    }

    pub closed spec fn spec_sample_rate(&self) -> u32 {
        self.sample_rate
    }

    /// The sine period the gain table is built from.
    pub closed spec fn spec_sine(&self) -> Seq<i32> {
        self.sine@
    }

    /// Samples spent on each table entry.
    pub closed spec fn spec_cycle(&self) -> int {
        self.samples_per_tremolo_cycle as int
    }

    /// The table entry in use.
    pub closed spec fn spec_index(&self) -> int {
        self.table_index as int
    }

    /// Samples already spent on the current table entry.
    pub closed spec fn spec_counter(&self) -> int {
        self.sample_counter as int
    }

    /// The table position: entry and samples spent on it.
    pub open spec fn position(&self) -> (int, int) {
        (self.spec_index(), self.spec_counter())
    }

    /// The gain at table entry `i`: `1 - depth * sin`.
    pub open spec fn spec_gain(&self, i: int) -> int {
        gain_at(self.spec_depth() as int, self.spec_sine()[i] as int)
    }

    /// Both tremolos have the same settings and tables.
    pub open spec fn same_settings(&self, other: Tremolo) -> bool {
        &&& other.spec_rate() == self.spec_rate()
        &&& other.spec_depth() == self.spec_depth()
        &&& other.spec_sample_rate() == self.spec_sample_rate()
        &&& other.spec_sine() == self.spec_sine()
        &&& other.spec_cycle() == self.spec_cycle()
    }

    fn build_table(depth: u32, sine: &Vec<i32>) -> (r: Vec<i64>)
        requires
            table_wf(sine@),
        ensures
            r@.len() == TREMOLO_TABLE_SIZE,
            forall|i: int|
                0 <= i < TREMOLO_TABLE_SIZE ==> #[trigger] r@[i] == gain_at(
                    depth as int,
                    sine@[i] as int,
                ),
    {
        let mut table: Vec<i64> = Vec::new();
        let mut i: usize = 0;
        while i < TREMOLO_TABLE_SIZE
            invariant
                i <= TREMOLO_TABLE_SIZE,
                table_wf(sine@),
                table@.len() == i,
                forall|j: int|
                    0 <= j < i ==> #[trigger] table@[j] == gain_at(depth as int, sine@[j] as int),
            decreases TREMOLO_TABLE_SIZE - i,
        {
            let s = sine[i];
            proof {
                assert(in_unit_range(sine@[i as int] as int));
                let p = depth as int * s as int;
                assert(-140737488355328 <= p <= 140737488355328) by (nonlinear_arith)
                    requires
                        0 <= depth <= u32::MAX,
                        -32768 <= s <= 32768,
                        p == depth as int * s as int,
                ;
                assert(-140737488355328 <= p / 1000 <= 140737488355328) by (nonlinear_arith)
                    requires
                        -140737488355328 <= p <= 140737488355328,
                ;
            }
            let q = div_floor(depth as i64 * s as i64, SCALE_FACTOR as i64);
            table.push(UNITY as i64 - q);
            i = i + 1;
        }
        table
    }

    fn cycle_length(rate: u32, sample_rate: u32) -> (r: u64)
        ensures
            r == samples_per_step(rate as int, sample_rate as int),
    {
        if rate == 0 {
            u64::MAX
        } else {
            proof {
                vstd::arithmetic::div_mod::lemma_div_is_ordered_by_denominator(
                    sample_rate as int * 1000,
                    1,
                    rate as int,
                );
            }
            (sample_rate as u64 * SCALE_FACTOR as u64) / rate as u64
        }
    }

    /// A tremolo at the start of its table. `rate` is in millihertz, `depth`
    /// in thousandths; `sine` is one sine period.
    pub fn new(rate: u32, depth: u32, sample_rate: u32, sine: &Vec<i32>) -> (r: Self)
        requires
            table_wf(sine@),
        ensures
            r.wf(),
            r.spec_rate() == rate,
            r.spec_depth() == depth,
            r.spec_sample_rate() == sample_rate,
            r.spec_sine() == sine@,
            r.spec_cycle() == samples_per_step(rate as int, sample_rate as int),
            r.position() == (0int, 0int),
    {
        let tremolo_table = Self::build_table(depth, sine);
        let samples_per_tremolo_cycle = Self::cycle_length(rate, sample_rate);
        Tremolo {
            rate,
            depth,
            sample_rate,
            sine: sine.clone(),
            tremolo_table,
            table_index: 0,
            samples_per_tremolo_cycle,
            sample_counter: 0,
        }
    }

    /// Scales a sample by the current gain and counts it; after a full step
    /// the table index moves on by one.
    pub fn process(&mut self, sample: i32, _sample_rate: u32) -> (r: i32)
        requires
            old(self).wf(),
        ensures
            final(self).wf(),
            r == modulate(sample as int, old(self).spec_gain(old(self).spec_index())),
            final(self).position() == step_position(old(self).position(), old(self).spec_cycle()),
            0 <= final(self).spec_index() < TREMOLO_TABLE_SIZE,
            old(self).same_settings(*final(self)),
    {
        let gain = self.tremolo_table[self.table_index];
        proof {
            let g = gain as int;
            let sv = self.sine@[self.table_index as int] as int;
            assert(in_unit_range(sv));
            let p = self.depth as int * sv;
            assert(-140737488355328 <= p <= 140737488355328) by (nonlinear_arith)
                requires
                    0 <= self.depth <= u32::MAX,
                    -32768 <= sv <= 32768,
                    p == self.depth as int * sv,
            ;
            assert(-140737488355328 <= p / 1000 <= 140737488355328) by (nonlinear_arith)
                requires
                    -140737488355328 <= p <= 140737488355328,
            ;
            assert(-281474976710656 <= g <= 281474976710656);
            assert(-1208925819614629174706176 <= sample as int * g <= 1208925819614629174706176) by (nonlinear_arith)
                requires
                    -281474976710656 <= g <= 281474976710656,
                    i32::MIN <= sample <= i32::MAX,
            ;
        }
        let out = saturate_wide(floor_div_wide(sample as i128 * gain as i128, UNITY as i128));
        if self.sample_counter + 1 >= self.samples_per_tremolo_cycle {
            self.sample_counter = 0;
            self.table_index = (self.table_index + 1) % TREMOLO_TABLE_SIZE;
        } else {
            self.sample_counter = self.sample_counter + 1;
        }
        out
    }

    /// Back to the start of the table.
    pub fn reset(&mut self)
        requires
            old(self).wf(),
        ensures
            final(self).wf(),
            final(self).position() == (0int, 0int),
            old(self).same_settings(*final(self)),
    {
        self.table_index = 0;
        self.sample_counter = 0;
    }

    /// Changes the rate (millihertz): a new step length, the counter back
    /// to zero, the table entry kept.
    pub fn set_rate(&mut self, rate: u32)
        requires
            old(self).wf(),
        ensures
            final(self).wf(),
            final(self).spec_rate() == rate,
            final(self).spec_cycle() == samples_per_step(
                rate as int,
                old(self).spec_sample_rate() as int,
            ),
            final(self).spec_depth() == old(self).spec_depth(),
            final(self).spec_sample_rate() == old(self).spec_sample_rate(),
            final(self).spec_sine() == old(self).spec_sine(),
            final(self).position() == (old(self).spec_index(), 0int),
    {
        self.samples_per_tremolo_cycle = Self::cycle_length(rate, self.sample_rate);
        self.rate = rate;
        self.sample_counter = 0;
    }

    /// Changes the depth (thousandths) and rebuilds the gain table; the table
    /// position is kept.
    pub fn set_depth(&mut self, depth: u32)
        requires
            old(self).wf(),
        ensures
            final(self).wf(),
            final(self).spec_depth() == depth,
            final(self).spec_rate() == old(self).spec_rate(),
            final(self).spec_sample_rate() == old(self).spec_sample_rate(),
            final(self).spec_sine() == old(self).spec_sine(),
            final(self).spec_cycle() == old(self).spec_cycle(),
            final(self).position() == old(self).position(),
    {
        self.tremolo_table = Self::build_table(depth, &self.sine);
        self.depth = depth;
    }
}

/// The tremolo that all voices share, with its on/off switch.
#[derive(Debug)]
pub struct TremoloEffect {
    tremolo: Tremolo,
    enabled: bool,
}

/// `after` is `before` toggled: the switch flipped, the parameters, the
/// gain table and the step length kept, and the table position back at the
/// start when the switch turned on (else kept).
pub open spec fn toggled(before: TremoloEffect, after: TremoloEffect) -> bool {
    &&& after.spec_enabled() == !before.spec_enabled()
    &&& after.spec_rate() == before.spec_rate()
    &&& after.spec_depth() == before.spec_depth()
    &&& after.spec_sample_rate() == before.spec_sample_rate()
    &&& after.spec_sine() == before.spec_sine()
    &&& after.spec_cycle() == before.spec_cycle()
    &&& forall|i: int| #[trigger] after.gain_at_index(i) == before.gain_at_index(i)
    &&& if after.spec_enabled() {
        after.position() == (0int, 0int)
    } else {
        after.position() == before.position()
    }
}

impl TremoloEffect {
    pub closed spec fn wf(&self) -> bool {
        self.tremolo.wf()
    }

    pub closed spec fn spec_enabled(&self) -> bool {
        self.enabled
    }

    pub closed spec fn spec_rate(&self) -> u32 {
        self.tremolo.rate
    }

    pub closed spec fn spec_depth(&self) -> u32 {
        self.tremolo.depth
    }

    pub closed spec fn spec_sample_rate(&self) -> u32 {
        self.tremolo.sample_rate
    }

    /// The sine period the gain table is built from.
    pub closed spec fn spec_sine(&self) -> Seq<i32> {
        self.tremolo.sine@
    }

    pub closed spec fn spec_index(&self) -> int {
        self.tremolo.table_index as int
    }

    pub closed spec fn spec_counter(&self) -> int {
        self.tremolo.sample_counter as int
    }

    /// The tremolo's current gain.
    pub open spec fn current_gain(&self) -> int {
        self.gain_at_index(self.spec_index())
    }

    /// What `process` returns for a sample: modulated when enabled, else unchanged.
    pub open spec fn output(&self, sample: int) -> int {
        if self.spec_enabled() {
            modulate(sample, self.current_gain())
        } else {
            sample
        }
    }

    /// Samples per table entry.
    pub closed spec fn spec_cycle(&self) -> int {
        self.tremolo.samples_per_tremolo_cycle as int
    }

    /// The gain at table entry `i`: `1 - depth * sin`.
    pub open spec fn gain_at_index(&self, i: int) -> int {
        gain_at(self.spec_depth() as int, self.spec_sine()[i] as int)
    }

    /// The table position.
    pub open spec fn position(&self) -> (int, int) {
        (self.spec_index(), self.spec_counter())
    }

    /// Both effects have the same switch, parameters and tables.
    pub open spec fn same_settings(&self, other: TremoloEffect) -> bool {
        &&& other.spec_enabled() == self.spec_enabled()
        &&& other.spec_rate() == self.spec_rate()
        &&& other.spec_depth() == self.spec_depth()
        &&& other.spec_sample_rate() == self.spec_sample_rate()
        &&& other.spec_sine() == self.spec_sine()
        &&& other.spec_cycle() == self.spec_cycle()
        &&& forall|i: int| #[trigger] other.gain_at_index(i) == self.gain_at_index(i)
    }

    pub fn builder() -> (r: TremoloEffectBuilder)
        ensures
            r == TremoloEffectBuilder::spec_default(),
    {
        TremoloEffectBuilder::default()
    }

    /// Applies the tremolo to one sample when enabled; passes it through otherwise.
    pub fn process(&mut self, sample: i32, sample_rate: u32) -> (r: i32)
        requires
            old(self).wf(),
        ensures
            final(self).wf(),
            r == old(self).output(sample as int),
            old(self).same_settings(*final(self)),
            final(self).position() == if old(self).spec_enabled() {
                step_position(old(self).position(), old(self).spec_cycle())
            } else {
                old(self).position()
            },
    {
        if self.enabled {
            self.tremolo.process(sample, sample_rate)
        } else {
            sample
        }
    }

    /// Flips the switch; turning it on starts the tremolo from the top of its table.
    pub fn toggle(&mut self)
        requires
            old(self).wf(),
        ensures
            final(self).wf(),
            toggled(*old(self), *final(self)),
    {
        self.enabled = !self.enabled;
        if self.enabled {
            self.tremolo.reset();
        }
    }

    pub fn is_enabled(&self) -> (r: bool)
        ensures
            r == self.spec_enabled(),
    {
        self.enabled
    }

    /// Sets the rate in millihertz: a new step length, the counter back to
    /// zero, the table entry and the gains kept.
    pub fn set_rate(&mut self, rate: u32)
        requires
            old(self).wf(),
        ensures
            final(self).wf(),
            final(self).spec_rate() == rate,
            final(self).spec_cycle() == samples_per_step(
                rate as int,
                old(self).spec_sample_rate() as int,
            ),
            final(self).spec_depth() == old(self).spec_depth(),
            final(self).spec_sample_rate() == old(self).spec_sample_rate(),
            final(self).spec_sine() == old(self).spec_sine(),
            final(self).spec_enabled() == old(self).spec_enabled(),
            final(self).position() == (old(self).spec_index(), 0int),
    {
        self.tremolo.set_rate(rate);
    }

    /// The table position: entry and samples spent on it.
    pub fn get_position(&self) -> (r: (usize, u64))
        requires
            self.wf(),
        ensures
            r.0 as int == self.spec_index(),
            r.1 as int == self.spec_counter(),
            r.0 < TREMOLO_TABLE_SIZE,
            r.1 < u64::MAX,
    {
        (self.tremolo.table_index, self.tremolo.sample_counter)
    }

    /// Moves back (or on) to a table position taken earlier.
    pub fn set_position(&mut self, pos: (usize, u64))
        requires
            old(self).wf(),
            pos.0 < TREMOLO_TABLE_SIZE,
            pos.1 < u64::MAX,
        ensures
            final(self).wf(),
            old(self).same_settings(*final(self)),
            final(self).position() == (pos.0 as int, pos.1 as int),
    {
        self.tremolo.table_index = pos.0;
        self.tremolo.sample_counter = pos.1;
    }

    /// Lets `n` samples pass: the table position moves on by `n` when enabled.
    pub fn advance(&mut self, n: usize)
        requires
            old(self).wf(),
        ensures
            final(self).wf(),
            old(self).same_settings(*final(self)),
            final(self).position() == if old(self).spec_enabled() {
                position_after_steps(old(self).position(), old(self).spec_cycle(), n as nat)
            } else {
                old(self).position()
            },
    {
        let mut i: usize = 0;
        while i < n
            invariant
                i <= n,
                self.wf(),
                old(self).same_settings(*self),
                self.position() == if old(self).spec_enabled() {
                    position_after_steps(old(self).position(), old(self).spec_cycle(), i as nat)
                } else {
                    old(self).position()
                },
            decreases n - i,
        {
            self.process(0, 0);
            i = i + 1;
        }
    }

    /// Sets the depth in thousandths and rebuilds the gain table; the rate,
    /// the step length and the table position are kept.
    pub fn set_depth(&mut self, depth: u32)
        requires
            old(self).wf(),
        ensures
            final(self).wf(),
            final(self).spec_depth() == depth,
            final(self).spec_rate() == old(self).spec_rate(),
            final(self).spec_sample_rate() == old(self).spec_sample_rate(),
            final(self).spec_sine() == old(self).spec_sine(),
            final(self).spec_cycle() == old(self).spec_cycle(),
            final(self).spec_enabled() == old(self).spec_enabled(),
            final(self).position() == old(self).position(),
    {
        self.tremolo.set_depth(depth);
    }

    pub fn get_rate(&self) -> (r: u32)
        ensures
            r == self.spec_rate(),
    {
        self.tremolo.rate
    }

    pub fn get_depth(&self) -> (r: u32)
        ensures
            r == self.spec_depth(),
    {
        self.tremolo.depth
    }
}

/// The tremolo leaves every sample unchanged while it is disabled, and also
/// while it is enabled with depth zero.
pub proof fn lemma_tremolo_transparent(effect: TremoloEffect, sample: int)
    requires
        effect.wf(),
        i32::MIN <= sample <= i32::MAX,
        !effect.spec_enabled() || effect.spec_depth() == 0,
    ensures
        effect.output(sample) == sample,
{
    if effect.spec_enabled() {
        assert(effect.current_gain() == UNITY);
        assert(sample * UNITY / (UNITY as int) == sample) by (nonlinear_arith);
    }
}

/// Toggling twice gives back the switch as it was.
pub proof fn lemma_toggle_twice(e0: TremoloEffect, e1: TremoloEffect, e2: TremoloEffect)
    requires
        toggled(e0, e1),
        toggled(e1, e2),
    ensures
        e2.spec_enabled() == e0.spec_enabled(),
        e2.spec_rate() == e0.spec_rate(),
        e2.spec_depth() == e0.spec_depth(),
{
}

/// Settings gathered before a `TremoloEffect` is built.
#[derive(Clone, Copy, Debug, PartialEq, Eq, Structural)]
pub struct TremoloEffectBuilder {
    pub rate: u32,
    pub depth: u32,
    pub enabled: bool,
}

impl TremoloEffectBuilder {
    /// 5 Hz, depth 0.5, disabled.
    pub open spec fn spec_default() -> TremoloEffectBuilder {
        TremoloEffectBuilder { rate: 5000, depth: 500, enabled: false }
    }

    /// Sets the rate in millihertz.
    pub fn rate(self, rate: u32) -> (r: Self)
        ensures
            r == (TremoloEffectBuilder { rate, ..self }),
    {
        TremoloEffectBuilder { rate, ..self }
    }

    /// Sets the depth in thousandths.
    pub fn depth(self, depth: u32) -> (r: Self)
        ensures
            r == (TremoloEffectBuilder { depth, ..self }),
    {
        TremoloEffectBuilder { depth, ..self }
    }

    pub fn enabled(self, enabled: bool) -> (r: Self)
        ensures
            r == (TremoloEffectBuilder { enabled, ..self }),
    {
        TremoloEffectBuilder { enabled, ..self }
    }

    /// Builds the effect over the sine table, at the start of its table; each
    /// table entry lasts `samples_per_step(rate, sample_rate)` samples.
    pub fn build(self, sample_rate: u32, tables: &Wavetables) -> (r: TremoloEffect)
        requires
            tables.wf(),
        ensures
            r.wf(),
            r.spec_rate() == self.rate,
            r.spec_depth() == self.depth,
            r.spec_enabled() == self.enabled,
            r.spec_sample_rate() == sample_rate,
            r.spec_sine() == tables.table(OscillatorWaveform::Sine),
            r.spec_cycle() == samples_per_step(self.rate as int, sample_rate as int),
            r.position() == (0int, 0int),
    {
        let sine = tables.get(OscillatorWaveform::Sine);
        TremoloEffect { tremolo: Tremolo::new(self.rate, self.depth, sample_rate, sine), enabled: self.enabled }
    }
}

impl Default for TremoloEffectBuilder {
    fn default() -> (r: Self)
        ensures
            r == Self::spec_default(),
    {
        TremoloEffectBuilder { rate: 5000, depth: 500, enabled: false }
    }
}

} // verus!
