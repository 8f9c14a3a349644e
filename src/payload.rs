//! The cached value: a normalised snapshot of the weather.
use vstd::prelude::*;

verus! {

/// A normalised weather snapshot, as served to clients.
///
/// Each reading is held as the IEEE-754 bit pattern of an `f32`
/// (`f32::to_bits`), so that the value can be stored, compared and copied
/// exactly; a client turns it back with `f32::from_bits`.
#[derive(Debug, Clone, Copy, PartialEq, Eq, Structural, Hash)]
pub struct PreparedTemp {
    pub temp: u32,
    pub temp_max: u32,
    pub temp_min: u32,
    pub humidity: u32,
    pub pressure: u32,
    pub wind_speed: u32,
}

impl PreparedTemp {
    /// Gathers the six readings (bit patterns of `f32`) into a snapshot.
    pub fn new(
        temp: u32,
        temp_max: u32,
        temp_min: u32,
        humidity: u32,
        pressure: u32,
        wind_speed: u32,
    ) -> (r: PreparedTemp)
        ensures
            r == (PreparedTemp { temp, temp_max, temp_min, humidity, pressure, wind_speed }),
    {
        PreparedTemp { temp, temp_max, temp_min, humidity, pressure, wind_speed }
    }
}

} // verus!
