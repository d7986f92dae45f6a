//! The attack-decay-release amplitude envelope, a pure function of elapsed time.
use vstd::prelude::*;

use crate::sample::UNITY;

verus! {

/// Stage lengths are counted in samples; the sustain level is a gain in
/// [0, `UNITY`].
#[derive(Clone, Copy, Debug)]
pub struct AmplitudeEnvelope {
    pub attack_time: u32,
    pub decay_time: u32,
    pub sustain_level: u32,
    pub release_time: u32,
}

impl AmplitudeEnvelope {
    pub open spec fn wf(&self) -> bool {
        self.sustain_level <= UNITY
    }

    /// The gain `t` samples after the note started: a ramp up over the attack,
    /// down to the sustain level over the decay, down to zero over the release,
    /// and zero from then on.
    pub open spec fn amplitude(&self, t: int) -> int {
        let a = self.attack_time as int;
        let d = self.decay_time as int;
        let r = self.release_time as int;
        let s = self.sustain_level as int;
        if t < a {
            UNITY * t / a
        } else if t < a + d {
            UNITY - (t - a) * (UNITY - s) / d
        } else if t < a + d + r {
            s * (r - (t - a - d)) / r
        } else {
            0
        }
    }

    /// The gain at `time` samples after the note started.
    pub fn amplitude_at_time(&self, time: u64) -> (r: i32)
        requires
            self.wf(),
        ensures
            r == self.amplitude(time as int),
            0 <= r <= UNITY,
    {
        let a = self.attack_time as u64;
        let d = self.decay_time as u64;
        let rl = self.release_time as u64;
        let s = self.sustain_level as u64;
        let unity = UNITY as u64;
        if time < a {
            proof {
                lemma_scaled_ratio(time as int, a as int, UNITY as int);
            }
            (unity * time / a) as i32
        } else if time < a + d {
            let x = time - a;
            proof {
                lemma_scaled_ratio(x as int, d as int, (UNITY - s) as int);
                assert(x * (unity - s) <= d * 32768) by (nonlinear_arith)
                    requires
                        x <= d,
                        unity - s <= 32768,
                ;
            }
            (unity - x * (unity - s) / d) as i32
        } else if time < a + d + rl {
            let x = time - a - d;
            proof {
                lemma_scaled_ratio((rl - x) as int, rl as int, s as int);
                assert(s * (rl - x) <= 32768 * rl) by (nonlinear_arith)
                    requires
                        rl - x <= rl,
                        s <= 32768,
                ;
            }
            (s * (rl - x) / rl) as i32
        } else {
            0
        }
    }
}

/// `k * x / n` lies in [0, k] when `0 <= x <= n`.
proof fn lemma_scaled_ratio(x: int, n: int, k: int)
    requires
        0 <= x <= n,
        n > 0,
        0 <= k,
    ensures
        0 <= k * x / n <= k,
        0 <= x * k / n <= k,
{
    assert(0 <= k * x <= k * n) by (nonlinear_arith)
        requires
            0 <= x <= n,
            0 <= k,
    ;
    assert(k * x == x * k) by (nonlinear_arith);
    assert(k * n / n == k) by (nonlinear_arith)
        requires
            n > 0,
    ;
    vstd::arithmetic::div_mod::lemma_div_is_ordered(k * x, k * n, n);
    vstd::arithmetic::div_mod::lemma_div_pos_is_pos(k * x, n);
}

/// The envelope's shape: silent at the start of a non-empty attack, at full
/// gain where a non-empty decay begins, at the sustain level where a non-empty
/// release begins, silent once the release has ended, rising through the
/// attack, and falling through the decay and the release.
pub proof fn lemma_envelope_shape(env: AmplitudeEnvelope, t1: int, t2: int)
    requires
        env.wf(),
    ensures
        env.attack_time > 0 ==> env.amplitude(0) == 0,
        env.decay_time > 0 ==> env.amplitude(env.attack_time as int) == UNITY,
        env.release_time > 0 ==> env.amplitude(env.attack_time + env.decay_time)
            == env.sustain_level,
        env.amplitude(env.attack_time + env.decay_time + env.release_time) == 0,
        0 <= t1 <= t2 < env.attack_time ==> env.amplitude(t1) <= env.amplitude(t2),
        env.attack_time <= t1 <= t2 < env.attack_time + env.decay_time ==> env.amplitude(t1)
            >= env.amplitude(t2),
        env.attack_time + env.decay_time <= t1 <= t2 < env.attack_time + env.decay_time
            + env.release_time ==> env.amplitude(t1) >= env.amplitude(t2),
{
    let a = env.attack_time as int;
    let d = env.decay_time as int;
    let r = env.release_time as int;
    let s = env.sustain_level as int;
    if r > 0 {
        assert(s * r / r == s) by (nonlinear_arith)
            requires
                r > 0,
        ;
    }
    if 0 <= t1 <= t2 < a {
        assert(UNITY * t1 <= UNITY * t2) by (nonlinear_arith)
            requires
                t1 <= t2,
        ;
        vstd::arithmetic::div_mod::lemma_div_is_ordered(UNITY * t1, UNITY * t2, a);
    }
    if a <= t1 <= t2 < a + d {
        assert((t1 - a) * (UNITY - s) <= (t2 - a) * (UNITY - s)) by (nonlinear_arith)
            requires
                a <= t1 <= t2,
                s <= UNITY,
        ;
        vstd::arithmetic::div_mod::lemma_div_is_ordered(
            (t1 - a) * (UNITY - s),
            (t2 - a) * (UNITY - s),
            d,
        );
    }
    if a + d <= t1 <= t2 < a + d + r {
        assert(s * (r - (t2 - a - d)) <= s * (r - (t1 - a - d))) by (nonlinear_arith)
            requires
                a + d <= t1 <= t2,
                0 <= s,
        ;
        vstd::arithmetic::div_mod::lemma_div_is_ordered(
            s * (r - (t2 - a - d)),
            s * (r - (t1 - a - d)),
            r,
        );
    }
}

} // verus!
