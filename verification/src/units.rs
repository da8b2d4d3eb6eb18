use vstd::prelude::*;
use vstd::arithmetic::div_mod::{
    lemma_div_nonincreasing, lemma_fundamental_div_mod, lemma_fundamental_div_mod_converse,
};

verus! {

/// Position on the sample clock, counted in samples since the stream began.
pub type SamplePosition = usize;

/// Signed distance between two sample positions.
pub type SampleOffset = isize;

/// Conversion factor from beat fractions to samples, held as the exact
/// rational `num / den`: one sixteenth of a beat lasts `num / den` samples.
///
/// Keeping the factor as a rational lets every conversion be stated exactly:
/// a `BeatFraction` of `v` sixteenths maps to `floor(v * num / den)` samples.
#[derive(Clone, Copy, Debug, PartialEq, Eq, Structural)]
pub struct SampleScale {
    pub num: u64,
    pub den: u64,
}

impl SampleScale {
    /// A scale is usable when its denominator is positive.
    pub open spec fn valid(&self) -> bool {
        self.den > 0
    }

    pub fn new(num: u64, den: u64) -> (s: SampleScale)
        requires
            den > 0,
        ensures
            s == (SampleScale { num, den }),
    {
        SampleScale { num, den }
    }
}

/// `x` clamped into `[lo, hi]`.
pub open spec fn clamp_to(x: int, lo: int, hi: int) -> int {
    if x < lo {
        lo
    } else if x > hi {
        hi
    } else {
        x
    }
}

/// `floor(value * num / den)`; Euclidean division by a positive denominator
/// is exactly the floor.
pub open spec fn scaled(value: int, num: int, den: int) -> int {
    (value * num) / den
}

/// `scaled`, clamped into the range of `SampleOffset`, mirroring a
/// saturating cast to a signed machine word.
pub open spec fn scaled_offset(value: int, scale: SampleScale) -> int {
    clamp_to(
        scaled(value, scale.num as int, scale.den as int),
        isize::MIN as int,
        isize::MAX as int,
    )
}

/// `scaled`, clamped into the range of `SamplePosition`, mirroring a
/// saturating cast to an unsigned machine word.
pub open spec fn scaled_position(value: int, scale: SampleScale) -> int {
    clamp_to(scaled(value, scale.num as int, scale.den as int), 0, usize::MAX as int)
}

/// Dividing a non-positive value written as `-m` by a positive `d` floors
/// away from zero: the quotient is `-(ceil(m / d))`.
pub proof fn lemma_div_of_negative(m: int, d: int)
    requires
        m >= 0,
        d > 0,
    ensures
        m % d == 0 ==> (-m) / d == -(m / d),
        m % d != 0 ==> (-m) / d == -(m / d) - 1,
{
    let q = m / d;
    let r = m % d;
    lemma_fundamental_div_mod(m, d);
    if r == 0 {
        assert(-m == (-q) * d + 0) by (nonlinear_arith)
            requires
                m == d * q + r,
                r == 0,
        ;
        lemma_fundamental_div_mod_converse(-m, d, -q, 0);
    } else {
        assert(-m == (-q - 1) * d + (d - r)) by (nonlinear_arith)
            requires
                m == d * q + r,
        ;
        lemma_fundamental_div_mod_converse(-m, d, -q - 1, d - r);
    }
}

/// The remainder of a non-positive value written as `-m`, by a positive
/// `d`: zero when `m` divides evenly, and `d - m % d` otherwise.
pub proof fn lemma_mod_of_negative(m: int, d: int)
    requires
        m >= 0,
        d > 0,
    ensures
        m % d == 0 ==> (-m) % d == 0,
        m % d != 0 ==> (-m) % d == d - (m % d),
{
    let q = m / d;
    let r = m % d;
    lemma_fundamental_div_mod(m, d);
    if r == 0 {
        assert(-m == (-q) * d + 0) by (nonlinear_arith)
            requires
                m == d * q + r,
                r == 0,
        ;
        lemma_fundamental_div_mod_converse(-m, d, -q, 0);
    } else {
        assert(-m == (-q - 1) * d + (d - r)) by (nonlinear_arith)
            requires
                m == d * q + r,
        ;
        lemma_fundamental_div_mod_converse(-m, d, -q - 1, d - r);
    }
}

/// Fixed-point count of sixteenths of a beat.
///
/// Musically quantised parameters (jump offsets, repeat sizes) are held in
/// this type rather than in floating point, so that equality and hashing
/// are exact integer comparisons.
#[derive(Clone, Copy, Debug, PartialEq, Eq, Hash, Structural)]
pub struct BeatFraction {
    pub value: i32,
}

impl BeatFraction {
    /// The beat fraction of exactly `value` sixteenths of a beat.
    pub fn from_sixteenths(value: i32) -> (b: BeatFraction)
        ensures
            b == (BeatFraction { value }),
    {
        BeatFraction { value }
    }

    /// This fraction as a signed sample offset under `scale`, saturating at
    /// the ends of the offset range.
    pub fn as_sample_offset(&self, scale: SampleScale) -> (r: SampleOffset)
        requires
            scale.valid(),
        ensures
            r as int == scaled_offset(self.value as int, scale),
    {
        let s = scale_i128(self.value, scale);
        if s < isize::MIN as i128 {
            isize::MIN
        } else if s > isize::MAX as i128 {
            isize::MAX
        } else {
            s as isize
        }
    }

    /// This fraction as a sample count under `scale`, saturating at zero
    /// below and at the top of the position range above.
    pub fn as_sample_position(&self, scale: SampleScale) -> (r: SamplePosition)
        requires
            scale.valid(),
        ensures
            r as int == scaled_position(self.value as int, scale),
    {
        let s = scale_i128(self.value, scale);
        if s < 0 {
            0
        } else if s > usize::MAX as i128 {
            usize::MAX
        } else {
            s as usize
        }
    }
}

/// `floor(a / d)`, computed exactly for any sign of `a`.
pub(crate) fn div_floor_i128(a: i128, d: u64) -> (q: i128)
    requires
        d > 0,
        a > i128::MIN,
    ensures
        q as int == (a as int) / (d as int),
{
    let dd = d as u128;
    if a >= 0 {
        let m = a as u128;
        let q = m / dd;
        proof {
            lemma_div_nonincreasing(m as int, dd as int);
        }
        q as i128
    } else {
        let m = (-a) as u128;
        let q = m / dd;
        let r = m % dd;
        proof {
            lemma_div_nonincreasing(m as int, dd as int);
            lemma_div_of_negative(m as int, dd as int);
        }
        if r == 0 {
            -(q as i128)
        } else {
            -(q as i128) - 1
        }
    }
}

/// `floor(value * scale.num / scale.den)`, computed exactly.
pub(crate) fn scale_i128(value: i32, scale: SampleScale) -> (r: i128)
    requires
        scale.valid(),
    ensures
        r as int == scaled(value as int, scale.num as int, scale.den as int),
{
    let v = value as i128;
    let n = scale.num as i128;
    assert(-0x8000_0000i128 * 0xffff_ffff_ffff_ffffi128 <= v * n <= 0x8000_0000i128
        * 0xffff_ffff_ffff_ffffi128) by (nonlinear_arith)
        requires
            -0x8000_0000i128 <= v <= 0x8000_0000i128,
            0 <= n <= 0xffff_ffff_ffff_ffffi128,
    ;
    div_floor_i128(v * n, scale.den)
}

} // verus!
