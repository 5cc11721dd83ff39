//! ACS712 Hall-effect current sensor: converts a raw 10-bit ADC reading
//! (AVCC = 5 V) to milliamperes. Variants: ±5 A (185 mV/A), ±20 A
//! (100 mV/A) and ±30 A (66 mV/A).

use vstd::prelude::*;

verus! {

/// Largest zero offset (mV) for which the conversion arithmetic fits.
pub const MAX_ZERO_MV: i32 = 4198401;

/// Integer division rounding towards zero, as Rust's `/` on signed values.
pub open spec fn div_trunc(a: int, b: int) -> int {
    if a >= 0 {
        a / b
    } else {
        -((-a) / b)
    }
}

/// ADC count that corresponds to the zero-current voltage, rounded.
pub open spec fn zero_adc_spec(zero_mv: int) -> int {
    (zero_mv * 1023 + 2500) / 5000
}

/// Current in mA for a raw reading:
/// `(adc − zero_adc) × 5 000 000 / (1023 × sensitivity)`, rounded towards 0.
pub open spec fn read_ma_spec(zero_mv: int, sensitivity: int, adc: int) -> i32 {
    div_trunc((adc - zero_adc_spec(zero_mv)) * 5000000, 1023 * sensitivity) as i32
}

/// Current sensor with its zero-current offset and sensitivity.
#[derive(Clone, Copy)]
pub struct ACS712 {
    zero_mv: i32,
    sensitivity_mv_a: i32,
}

impl ACS712 {
    /// Output voltage at zero current, in mV.
    pub closed spec fn zero_mv(&self) -> i32 {
        self.zero_mv
    }

    /// Sensitivity in mV per ampere.
    pub closed spec fn sensitivity(&self) -> i32 {
        self.sensitivity_mv_a
    }

    /// The conversion is defined for this instance.
    pub open spec fn is_calibrated(&self) -> bool {
        0 <= self.zero_mv() <= MAX_ZERO_MV && self.sensitivity() > 0
    }

    /// ACS712-05A: ±5 A, 185 mV/A.
    pub fn new_05a() -> (s: Self)
        ensures
            s.zero_mv() == 2500,
            s.sensitivity() == 185,
    {
        ACS712 { zero_mv: 2500, sensitivity_mv_a: 185 }
    }

    /// ACS712-20A: ±20 A, 100 mV/A.
    pub fn new_20a() -> (s: Self)
        ensures
            s.zero_mv() == 2500,
            s.sensitivity() == 100,
    {
        ACS712 { zero_mv: 2500, sensitivity_mv_a: 100 }
    }

    /// ACS712-30A: ±30 A, 66 mV/A.
    pub fn new_30a() -> (s: Self)
        ensures
            s.zero_mv() == 2500,
            s.sensitivity() == 66,
    {
        ACS712 { zero_mv: 2500, sensitivity_mv_a: 66 }
    }

    /// Same as `new_30a`.
    pub fn new() -> (s: Self)
        ensures
            s.zero_mv() == 2500,
            s.sensitivity() == 66,
    {
        Self::new_30a()
    }

    /// A 30 A sensor with a measured zero offset.
    pub fn with_zero_mv(zero_mv: i32) -> (s: Self)
        ensures
            s.zero_mv() == zero_mv,
            s.sensitivity() == 66,
    {
        ACS712 { zero_mv, sensitivity_mv_a: 66 }
    }

    /// The same sensor with a measured zero offset (sensitivity kept).
    pub fn calibrate_zero(self, zero_mv: i32) -> (s: Self)
        ensures
            s.zero_mv() == zero_mv,
            s.sensitivity() == self.sensitivity(),
    {
        ACS712 { zero_mv, ..self }
    }

    /// Converts a raw ADC reading to mA (negative for reverse current).
    pub fn read_ma(&self, adc_raw: u16) -> (ma: i32)
        requires
            self.is_calibrated(),
        ensures
            ma == read_ma_spec(self.zero_mv() as int, self.sensitivity() as int, adc_raw as int),
    {
        let zero_adc = (self.zero_mv as u32 * 1023 + 2500) / 5000;
        let delta_adc = adc_raw as i32 - zero_adc as i32;
        let num = delta_adc as i64 * 5000000i64;
        let den = 1023i64 * self.sensitivity_mv_a as i64;
        let q = if num >= 0 {
            num / den
        } else {
            -((-num) / den)
        };
        #[verifier::truncate]
        (q as i32)
    }

    /// Whether the magnitude of `current_ma` exceeds `threshold_ma`.
    pub fn is_overcurrent(&self, current_ma: i32, threshold_ma: i32) -> (r: bool)
        ensures
            r == (if current_ma < 0 {
                -current_ma
            } else {
                current_ma as int
            } > threshold_ma),
    {
        let magnitude: i64 = if current_ma < 0 {
            -(current_ma as i64)
        } else {
            current_ma as i64
        };
        magnitude > threshold_ma as i64
    }
}

/// Zero current reads as zero: a reading at the zero-offset count gives 0 mA.
pub proof fn law_zero_current(s: ACS712)
    requires
        s.is_calibrated(),
    ensures
        read_ma_spec(s.zero_mv() as int, s.sensitivity() as int, zero_adc_spec(
            s.zero_mv() as int,
        )) == 0,
{
}

proof fn lemma_quotient_bounds(n: int, den: int)
    requires
        den >= 1023,
        -1023 * 5000000 <= n <= 65535 * 5000000,
    ensures
        -2147483648 <= div_trunc(n, den) <= 2147483647,
        -2147483647 <= div_trunc(n, den),
{
    if n >= 0 {
        assert(n / den <= n / 1023 && 0 <= n / den) by (nonlinear_arith)
            requires
                n >= 0,
                den >= 1023,
        ;
    } else {
        assert((-n) / den <= (-n) / 1023 && 0 <= (-n) / den) by (nonlinear_arith)
            requires
                -n >= 0,
                den >= 1023,
        ;
    }
}

/// Symmetry: readings the same number of counts above and below the zero
/// offset give currents of equal magnitude and opposite sign.
pub proof fn law_symmetry(s: ACS712, d: int)
    requires
        s.is_calibrated(),
        0 <= d <= 1023,
    ensures
        read_ma_spec(s.zero_mv() as int, s.sensitivity() as int, zero_adc_spec(s.zero_mv() as int)
            + d) == -read_ma_spec(
            s.zero_mv() as int,
            s.sensitivity() as int,
            zero_adc_spec(s.zero_mv() as int) - d,
        ),
{
    let den = 1023 * s.sensitivity();
    assert(den >= 1023) by (nonlinear_arith)
        requires
            s.sensitivity() > 0,
            den == 1023 * s.sensitivity(),
    ;
    lemma_quotient_bounds(d * 5000000, den);
    lemma_quotient_bounds(-d * 5000000, den);
    assert((-d) * 5000000 == -(d * 5000000)) by (nonlinear_arith);
}

/// A larger reading never gives a smaller current.
pub proof fn law_monotone(s: ACS712, a: int, b: int)
    requires
        s.is_calibrated(),
        s.zero_mv() <= 5000,
        0 <= a <= b <= 65535,
    ensures
        read_ma_spec(s.zero_mv() as int, s.sensitivity() as int, a) <= read_ma_spec(
            s.zero_mv() as int,
            s.sensitivity() as int,
            b,
        ),
{
    let z = zero_adc_spec(s.zero_mv() as int);
    let den = 1023 * s.sensitivity();
    assert(den >= 1023) by (nonlinear_arith)
        requires
            s.sensitivity() > 0,
            den == 1023 * s.sensitivity(),
    ;
    assert(0 <= z <= 1023);
    let na = (a - z) * 5000000;
    let nb = (b - z) * 5000000;
    assert(na <= nb) by (nonlinear_arith)
        requires
            a <= b,
            na == (a - z) * 5000000,
            nb == (b - z) * 5000000,
    ;
    assert(div_trunc(na, den) <= div_trunc(nb, den)) by (nonlinear_arith)
        requires
            na <= nb,
            den > 0,
    ;
    lemma_quotient_bounds(na, den);
    lemma_quotient_bounds(nb, den);
}

} // verus!
