use vstd::prelude::*;

verus! {

/// The source voltage in millivolts for an ADC reading: a 30k/10k divider below a 5 V
/// reference gives `reading * 5000 / 1024 * 4 = reading * 625 / 32`, kept modulo 2^16.
pub open spec fn millivolts_spec(adc_reading: u16) -> u16 {
    ((adc_reading as int * 625 / 32) % 65536) as u16
}

/// Reads the buck converter's output through the voltage divider.
pub struct VoltageMonitor;

impl VoltageMonitor {
    /// Calculates the voltage in millivolts given an ADC reading.
    pub fn calculate_millivolts(adc_reading: u16) -> (mv: u16)
        ensures
            mv == millivolts_spec(adc_reading),
    {
        let scaled: u32 = (adc_reading as u32 * 625) / 32;
        assert(scaled as u16 == scaled % 65536) by (bit_vector);
        scaled as u16
    }
}

/// Readings up to 3355, which cover the 10-bit ADC's range, convert without wrapping,
/// and a larger reading never converts to fewer millivolts there.
pub proof fn lemma_millivolts_monotone(a: u16, b: u16)
    requires
        a <= b <= 3355,
    ensures
        millivolts_spec(a) as int == a as int * 625 / 32,
        millivolts_spec(a) <= millivolts_spec(b),
{
    assert(a as int * 625 / 32 <= b as int * 625 / 32) by (nonlinear_arith)
        requires
            a <= b,
    ;
    assert(b as int * 625 / 32 < 65536) by (nonlinear_arith)
        requires
            b <= 3355,
    ;
}

} // verus!
