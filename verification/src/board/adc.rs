//! On-chip temperature sensor through the ADC.
use vstd::prelude::*;

verus! {

/// Raw ADC value of the internal temperature sensor (channel 16); the ADC
/// driver does not provide it yet, so the value is 0.
pub fn read_temperature_raw() -> (r: u16)
    ensures
        r == 0,
{
    0
}

/// Rust integer division (rounding toward zero) by a positive divisor.
pub open spec fn div_toward_zero(a: int, b: int) -> int {
    if a >= 0 { a / b } else { -((-a) / b) }
}

/// Temperature (degrees C) of a raw sensor value with a 3.3 V reference
/// and a 12-bit ADC: V = raw * 3300 / 4096 mV, then
/// (V - 1430) * 10 / 43 + 250 tenths of a degree, in whole degrees.
pub open spec fn sensor_celsius(raw: u16) -> int {
    let v_sense = raw * 3300 / 4096;
    let temp_x10 = div_toward_zero((v_sense - 1430) * 10, 43) + 250;
    div_toward_zero(temp_x10, 10)
}

/// Convert a raw sensor value to degrees C.
pub fn raw_to_celsius(raw: u16) -> (r: i16)
    ensures
        r == sensor_celsius(raw),
{
    let v_sense: u32 = (raw as u32) * 3300 / 4096;
    let temp_x10: i32 = ((v_sense as i32 - 1430) * 10 / 43) + 250;
    (temp_x10 / 10) as i16
}

} // verus!
