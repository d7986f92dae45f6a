//! Fixed-point sample values and their conversions to device formats.
use vstd::prelude::*;

verus! {

/// The sample value that stands for an amplitude of 1.0.
pub const UNITY: i32 = 32768;

/// A sample lies within [-1.0, 1.0].
pub open spec fn in_unit_range(s: int) -> bool {
    -(UNITY as int) <= s <= UNITY as int
}

} // verus!

verus! {

/// `x` held to the range of `i32`.
pub open spec fn saturate(x: int) -> int {
    if x < i32::MIN {
        i32::MIN as int
    } else if x > i32::MAX {
        i32::MAX as int
    } else {
        x
    }
}

/// Floor division by a positive divisor.
pub fn div_floor(x: i64, d: i64) -> (r: i64)
    requires
        d > 0,
    ensures
        r == x / d,
{
    proof {
        let q = x as int / d as int;
        let m = x as int % d as int;
        vstd::arithmetic::div_mod::lemma_fundamental_div_mod(x as int, d as int);
        assert(i64::MIN <= q <= i64::MAX) by (nonlinear_arith)
            requires
                x == d * q + m,
                0 <= m < d,
                d >= 1,
                i64::MIN <= x <= i64::MAX,
        ;
    }
    match x.checked_div_euclid(d) {
        Some(q) => q,
        None => 0,
    }
}

/// A wide value held to the range of `i32`.
pub fn saturate_i64(x: i64) -> (r: i32)
    ensures
        r == saturate(x as int),
{
    if x < i32::MIN as i64 {
        i32::MIN
    } else if x > i32::MAX as i64 {
        i32::MAX
    } else {
        x as i32
    }
}

} // verus!

verus! {

/// A sample as a signed 16-bit device value: held to [-32768, 32767].
pub open spec fn i16_of(s: int) -> int {
    if s < i16::MIN {
        i16::MIN as int
    } else if s > i16::MAX {
        i16::MAX as int
    } else {
        s
    }
}

/// A sample as a signed 16-bit device value.
pub fn to_i16(sample: i32) -> (r: i16)
    ensures
        r == i16_of(sample as int),
{
    if sample < i16::MIN as i32 {
        i16::MIN
    } else if sample > i16::MAX as i32 {
        i16::MAX
    } else {
        sample as i16
    }
}

/// A sample as an unsigned 16-bit device value: the signed value moved up by
/// 32768, so silence is 32768.
pub fn to_u16(sample: i32) -> (r: u16)
    ensures
        r == i16_of(sample as int) + 32768,
{
    (to_i16(sample) as i32 + 32768) as u16
}

/// Splits a sample between two channels: the left gets `sample * (1 - |panning|)`,
/// the right `sample * (1 - left)`, both rounded down and held to `i32`.
pub open spec fn pan_of(sample: int, panning: int) -> (int, int) {
    let a = if panning < 0 {
        -panning
    } else {
        panning
    };
    let left = sample * (UNITY - a) / (UNITY as int);
    let right = sample * (UNITY - left) / (UNITY as int);
    (saturate(left), saturate(right))
}

/// Splits a sample between two channels; `panning` is a Q15 position.
pub fn pan(sample: i32, panning: i32) -> (r: (i32, i32))
    ensures
        r.0 == pan_of(sample as int, panning as int).0,
        r.1 == pan_of(sample as int, panning as int).1,
{
    let a: i128 = if panning < 0 {
        -(panning as i128)
    } else {
        panning as i128
    };
    proof {
        assert(-4611686018427387904 <= sample as int * (UNITY - a) <= 4611686018427387904)
            by (nonlinear_arith)
            requires
                i32::MIN <= sample <= i32::MAX,
                0 <= a <= 2147483648,
        ;
    }
    let left: i128 = floor_div_wide(sample as i128 * (UNITY as i128 - a), UNITY as i128);
    proof {
        let l = left as int;
        assert(-140737488355328 <= l <= 140737488355328) by (nonlinear_arith)
            requires
                l == sample as int * (UNITY - a) / 32768,
                -4611686018427387904 <= sample as int * (UNITY - a) <= 4611686018427387904,
        ;
        assert(-(0x1_0000_0000_0000_0000_0000i128 as int) <= sample as int * (UNITY - l)
            <= 0x1_0000_0000_0000_0000_0000i128 as int) by (nonlinear_arith)
            requires
                i32::MIN <= sample <= i32::MAX,
                -140737488355328 <= l <= 140737488355328,
        ;
    }
    let right: i128 = floor_div_wide(sample as i128 * (UNITY as i128 - left), UNITY as i128);
    (saturate_wide(left), saturate_wide(right))
}

pub(crate) fn floor_div_wide(x: i128, d: i128) -> (r: i128)
    requires
        d > 0,
        -0x1_0000_0000_0000_0000_0000i128 <= x <= 0x1_0000_0000_0000_0000_0000i128,
    ensures
        r == x / d,
{
    proof {
        let q = x as int / d as int;
        let m = x as int % d as int;
        vstd::arithmetic::div_mod::lemma_fundamental_div_mod(x as int, d as int);
        assert(-0x1_0000_0000_0000_0000_0000i128 <= q <= 0x1_0000_0000_0000_0000_0000i128) by (nonlinear_arith)
            requires
                x == d * q + m,
                0 <= m < d,
                d >= 1,
                -0x1_0000_0000_0000_0000_0000i128 <= x <= 0x1_0000_0000_0000_0000_0000i128,
        ;
    }
    match x.checked_div_euclid(d) {
        Some(q) => q,
        None => 0,
    }
}

pub(crate) fn saturate_wide(x: i128) -> (r: i32)
    ensures
        r == saturate(x as int),
{
    if x < i32::MIN as i128 {
        i32::MIN
    } else if x > i32::MAX as i128 {
        i32::MAX
    } else {
        x as i32
    }
}

} // verus!
