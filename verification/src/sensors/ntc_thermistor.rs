//! NTC thermistor module (10 kΩ at 25 °C, B = 3950, 10 kΩ pull-up): converts
//! a raw 10-bit ADC reading to °C by linear interpolation in a lookup table.
//! A higher reading means a colder cell.

use vstd::prelude::*;

verus! {

/// ADC points of the table, descending (−20 °C … 100 °C).
pub const NTC_ADC: [u16; 15] = [934, 874, 787, 682, 568, 512, 454, 352, 308, 268, 202, 152, 114, 87, 66];

/// Temperature (°C) at each ADC point, ascending.
pub const NTC_TEMP: [i16; 15] = [-20, -10, 0, 10, 20, 25, 30, 40, 45, 50, 60, 70, 80, 90, 100];

/// ADC point `i` of the table.
pub open spec fn adc_at(i: int) -> int {
    if i == 0 { 934 } else if i == 1 { 874 } else if i == 2 { 787 } else if i == 3 { 682 }
    else if i == 4 { 568 } else if i == 5 { 512 } else if i == 6 { 454 } else if i == 7 { 352 }
    else if i == 8 { 308 } else if i == 9 { 268 } else if i == 10 { 202 } else if i == 11 { 152 }
    else if i == 12 { 114 } else if i == 13 { 87 } else { 66 }
}

/// Temperature at point `i` of the table.
pub open spec fn temp_at(i: int) -> int {
    if i == 0 { -20 } else if i == 1 { -10 } else if i == 2 { 0 } else if i == 3 { 10 }
    else if i == 4 { 20 } else if i == 5 { 25 } else if i == 6 { 30 } else if i == 7 { 40 }
    else if i == 8 { 45 } else if i == 9 { 50 } else if i == 10 { 60 } else if i == 11 { 70 }
    else if i == 12 { 80 } else if i == 13 { 90 } else { 100 }
}

/// Interpolated temperature in segment `i` (between points `i` and `i+1`).
pub open spec fn interpolate(i: int, adc: int) -> int {
    temp_at(i) + (temp_at(i + 1) - temp_at(i)) * (adc_at(i) - adc) / (adc_at(i) - adc_at(i + 1))
}

/// Temperature for a reading strictly inside the table, searching the
/// segments from `i` on (the first segment that contains the reading wins).
pub open spec fn table_temp_from(adc: int, i: int) -> int
    decreases 14 - i,
{
    if i >= 13 || adc >= adc_at(i + 1) {
        interpolate(i, adc)
    } else {
        table_temp_from(adc, i + 1)
    }
}

/// Table temperature for a raw reading, before the calibration offset:
/// readings above 1023 count as 1023; readings at or beyond the first and
/// last points saturate at −20 °C and 100 °C.
pub open spec fn table_temp(adc_raw: u16) -> int {
    let adc: int = if adc_raw > 1023 {
        1023
    } else {
        adc_raw as int
    };
    if adc >= 934 {
        -20
    } else if adc <= 66 {
        100
    } else {
        table_temp_from(adc, 0)
    }
}

/// Battery-cell thermistor with a calibration offset in °C.
#[derive(Clone, Copy)]
pub struct NTCThermistor {
    offset_c: i32,
}

impl NTCThermistor {
    /// Calibration offset added to every reading, in °C.
    pub closed spec fn offset_c(&self) -> i32 {
        self.offset_c
    }

    /// No calibration offset.
    pub fn new() -> (s: Self)
        ensures
            s.offset_c() == 0,
    {
        NTCThermistor { offset_c: 0 }
    }

    /// A calibration offset in °C.
    pub fn with_offset(offset_c: i32) -> (s: Self)
        ensures
            s.offset_c() == offset_c,
    {
        NTCThermistor { offset_c }
    }

    /// The same sensor with a calibration offset (builder).
    pub fn calibrate(self, offset_c: i32) -> (s: Self)
        ensures
            s.offset_c() == offset_c,
    {
        NTCThermistor { offset_c }
    }

    /// Temperature in °C for a raw reading: table interpolation plus offset.
    pub fn read_celsius(&self, adc_raw: u16) -> (t: i32)
        requires
            i32::MIN <= table_temp(adc_raw) + self.offset_c() <= i32::MAX,
        ensures
            t == table_temp(adc_raw) + self.offset_c(),
    {
        let adc: u16 = if adc_raw > 1023 {
            1023
        } else {
            adc_raw
        };
        let table_adc: [u16; 15] = NTC_ADC;
        let table_t: [i16; 15] = NTC_TEMP;
        assert(table_adc@ =~= seq![934u16, 874, 787, 682, 568, 512, 454, 352, 308, 268, 202, 152, 114, 87, 66]);
        assert(table_t@ =~= seq![-20i16, -10i16, 0, 10, 20, 25, 30, 40, 45, 50, 60, 70, 80, 90, 100]);
        if adc >= table_adc[0] {
            return table_t[0] as i32 + self.offset_c;
        }
        if adc <= table_adc[14] {
            return table_t[14] as i32 + self.offset_c;
        }
        let mut i: usize = 0;
        while i < 13 && adc < table_adc[i + 1]
            invariant
                0 <= i <= 13,
                66 < adc < 934,
                adc < table_adc[i as int],
                table_adc@ == seq![934u16, 874, 787, 682, 568, 512, 454, 352, 308, 268, 202, 152, 114, 87, 66],
                table_t@ == seq![-20i16, -10i16, 0, 10, 20, 25, 30, 40, 45, 50, 60, 70, 80, 90, 100],
                table_temp_from(adc as int, 0) == table_temp_from(adc as int, i as int),
            decreases 13 - i,
        {
            i = i + 1;
        }
        let adc_hi = table_adc[i] as i32;
        let adc_lo = table_adc[i + 1] as i32;
        let temp_lo = table_t[i] as i32;
        let temp_hi = table_t[i + 1] as i32;
        let dt = temp_hi - temp_lo;
        let da = adc_hi - adc_lo;
        let dx = adc_hi - adc as i32;
        assert(0 < dt <= 10 && 0 < da <= 114 && 0 <= dx <= da);
        assert(0 <= dt * dx <= 1140) by (nonlinear_arith)
            requires
                0 < dt <= 10,
                0 <= dx <= 114,
        ;
        let t = temp_lo + dt * dx / da;
        assert((dt as int) * (dx as int) / (da as int) <= dt) by (nonlinear_arith)
            requires
                0 < dt,
                0 <= dx <= da,
                0 < da,
        ;
        t + self.offset_c
    }

    /// Whether `temp_c` is strictly above `threshold_c`.
    pub fn is_overtemp(&self, temp_c: i32, threshold_c: i32) -> (r: bool)
        ensures
            r == (temp_c > threshold_c),
    {
        temp_c > threshold_c
    }
}

proof fn lemma_table_step(i: int)
    requires
        0 <= i < 14,
    ensures
        0 < adc_at(i) - adc_at(i + 1) <= 114,
        0 < temp_at(i + 1) - temp_at(i) <= 10,
        66 <= adc_at(i + 1),
        adc_at(i) <= 934,
        -20 <= temp_at(i),
        temp_at(i + 1) <= 100,
{
}

proof fn lemma_temp_ascending(j: int, i: int)
    requires
        0 <= j <= i <= 14,
    ensures
        temp_at(j) <= temp_at(i),
    decreases i - j,
{
    if j < i {
        lemma_table_step(i - 1);
        lemma_temp_ascending(j, i - 1);
    }
}

/// Segment that `table_temp_from(adc, i)` interpolates in.
spec fn segment_from(adc: int, i: int) -> int
    decreases 14 - i,
{
    if i >= 13 || adc >= adc_at(i + 1) {
        i
    } else {
        segment_from(adc, i + 1)
    }
}

proof fn lemma_segment(adc: int, i: int)
    requires
        0 <= i <= 13,
        66 < adc <= adc_at(i),
    ensures
        i <= segment_from(adc, i) <= 13,
        adc_at(segment_from(adc, i) + 1) <= adc <= adc_at(segment_from(adc, i)),
        table_temp_from(adc, i) == interpolate(segment_from(adc, i), adc),
    decreases 14 - i,
{
    lemma_table_step(i);
    if !(i >= 13 || adc >= adc_at(i + 1)) {
        lemma_segment(adc, i + 1);
    }
}

proof fn lemma_segment_order(a: int, b: int, i: int)
    requires
        0 <= i <= 13,
        66 < a <= b <= adc_at(i),
    ensures
        segment_from(a, i) >= segment_from(b, i),
    decreases 14 - i,
{
    lemma_table_step(i);
    if !(i >= 13 || b >= adc_at(i + 1)) {
        lemma_segment_order(a, b, i + 1);
    } else if !(i >= 13 || a >= adc_at(i + 1)) {
        lemma_segment(a, i + 1);
    }
}

proof fn lemma_interpolate(i: int, a: int, b: int)
    requires
        0 <= i < 14,
        adc_at(i + 1) <= a <= b <= adc_at(i),
    ensures
        temp_at(i) <= interpolate(i, b) <= interpolate(i, a) <= temp_at(i + 1),
{
    lemma_table_step(i);
    let dt = temp_at(i + 1) - temp_at(i);
    let da = adc_at(i) - adc_at(i + 1);
    assert(0 <= dt * (adc_at(i) - b) / da <= dt * (adc_at(i) - a) / da <= dt) by (nonlinear_arith)
        requires
            0 < dt,
            0 < da,
            0 <= adc_at(i) - b <= adc_at(i) - a <= da,
    ;
}

/// The conversion never rises as the reading rises: a lower ADC value (a
/// warmer cell) never reads colder. Readings always lie within −20 … 100 °C
/// before the offset.
pub proof fn law_colder_reads_higher(a: u16, b: u16)
    requires
        a <= b,
    ensures
        table_temp(b) <= table_temp(a),
        -20 <= table_temp(a) <= 100,
{
    let x: int = if a > 1023 { 1023 } else { a as int };
    let y: int = if b > 1023 { 1023 } else { b as int };
    if 66 < x && x < 934 {
        lemma_segment(x, 0);
        let i = segment_from(x, 0);
        lemma_interpolate(i, x, x);
    }
    if 66 < y && y < 934 {
        lemma_segment(y, 0);
        let j = segment_from(y, 0);
        lemma_interpolate(j, y, y);
    }
    if 66 < x && x <= y && y < 934 {
        lemma_segment_order(x, y, 0);
        let i = segment_from(x, 0);
        let j = segment_from(y, 0);
        if i == j {
            lemma_interpolate(i, x, y);
        } else {
            lemma_interpolate(i, x, x);
            lemma_interpolate(j, y, y);
            lemma_temp_ascending(j + 1, i);
        }
    }
}

} // verus!
