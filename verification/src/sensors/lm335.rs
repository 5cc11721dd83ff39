//! LM335 precision temperature sensor (10 mV/K): converts a raw 10-bit ADC
//! reading (AVCC = 5 V) to kelvin and degrees Celsius.

use vstd::prelude::*;

verus! {

/// Kelvin reading without offset: `((adc × 5000) / 1023) / 10`.
pub open spec fn kelvin_raw(adc: u16) -> int {
    (adc as int * 5000) / 1023 / 10
}

/// Temperature sensor with a calibration offset in kelvin.
pub struct LM335 {
    offset_k: i32,
}

impl LM335 {
    /// Calibration offset added to every reading, in kelvin.
    pub closed spec fn offset_k(&self) -> i32 {
        self.offset_k
    }

    /// No calibration offset.
    pub fn new() -> (s: Self)
        ensures
            s.offset_k() == 0,
    {
        LM335 { offset_k: 0 }
    }

    /// A calibration offset: a sensor reading 28 °C against a 25 °C
    /// reference takes `offset_k = -3`.
    pub fn with_offset(offset_k: i32) -> (s: Self)
        ensures
            s.offset_k() == offset_k,
    {
        LM335 { offset_k }
    }

    /// Temperature in kelvin for a raw reading.
    pub fn read_kelvin(&self, adc_raw: u16) -> (k: i32)
        requires
            kelvin_raw(adc_raw) + self.offset_k() <= i32::MAX,
        ensures
            k == kelvin_raw(adc_raw) + self.offset_k(),
    {
        let v_mv = (adc_raw as u32 * 5000) / 1023;
        assert(v_mv / 10 <= 32031) by (nonlinear_arith)
            requires
                v_mv == (adc_raw as u32 * 5000) / 1023,
                adc_raw <= 65535,
        ;
        (v_mv / 10) as i32 + self.offset_k
    }

    /// Temperature in °C: kelvin minus 273.
    pub fn read_celsius(&self, adc_raw: u16) -> (c: i32)
        requires
            i32::MIN <= kelvin_raw(adc_raw) + self.offset_k() - 273,
            kelvin_raw(adc_raw) + self.offset_k() <= i32::MAX,
        ensures
            c == kelvin_raw(adc_raw) + self.offset_k() - 273,
    {
        self.read_kelvin(adc_raw) - 273
    }
}

/// The reading never decreases as the ADC value grows.
pub proof fn law_monotone(a: u16, b: u16)
    requires
        a <= b,
    ensures
        kelvin_raw(a) <= kelvin_raw(b),
{
    assert((a as int * 5000) / 1023 <= (b as int * 5000) / 1023) by (nonlinear_arith)
        requires
            a <= b,
    ;
    assert((a as int * 5000) / 1023 / 10 <= (b as int * 5000) / 1023 / 10) by (nonlinear_arith)
        requires
            (a as int * 5000) / 1023 <= (b as int * 5000) / 1023,
    ;
}

} // verus!
