use vstd::prelude::*;

verus! {

/// The 20-bit humidity field packed into a 5-byte measurement
/// payload: the first two bytes hold its upper 16 bits, the upper
/// nibble of the third byte its lowest 4 bits.
pub open spec fn humidity_raw_of(data: Seq<u8>) -> u32
    recommends
        data.len() == 5,
{
    ((data[0] as u32) << 12) | ((data[1] as u32) << 4) | ((data[2] as u32) >> 4)
}

/// The 20-bit temperature field packed into a 5-byte measurement
/// payload: the lower nibble of the third byte holds its upper 4
/// bits, the last two bytes its lower 16 bits.
pub open spec fn temperature_raw_of(data: Seq<u8>) -> u32
    recommends
        data.len() == 5,
{
    (((data[2] as u32) & 0x0f) << 16) | ((data[3] as u32) << 8) | (data[4] as u32)
}

/// Both packed fields fit in 20 bits, whatever the payload bytes are.
proof fn lemma_raw_fields_fit_20_bits(b0: u8, b1: u8, b2: u8, b3: u8, b4: u8)
    by (bit_vector)
    ensures
        (((b0 as u32) << 12) | ((b1 as u32) << 4) | ((b2 as u32) >> 4)) < 0x100000,
        ((((b2 as u32) & 0x0f) << 16) | ((b3 as u32) << 8) | (b4 as u32)) < 0x100000,
{
}

/// A single decoded measurement, as the two raw 20-bit values the
/// sensor transmits.
///
/// The datasheet's transfer functions turn them into physical units:
/// relative humidity in percent is `humidity_raw / 2^20 * 100`, and
/// temperature in degrees Celsius is `temperature_raw / 2^20 * 200 - 50`.
/// Applying them takes floating point, so that last step is left to
/// the caller.
#[derive(Debug, Clone, Copy, PartialEq, Eq, Structural)]
pub struct SensorReading {
    /// Humidity as a raw 20-bit value; full scale (`2^20`) is 100 %RH.
    pub humidity_raw: u32,
    /// Temperature as a raw 20-bit value; the scale runs linearly
    /// from -50 °C at 0 to 150 °C at full scale.
    pub temperature_raw: u32,
}

impl SensorReading {
    /// Unpack the five payload bytes of a measurement reply into the
    /// two 20-bit fields.
    pub fn from_bytes(sensor_data: [u8; 5]) -> (reading: SensorReading)
        ensures
            reading.humidity_raw == humidity_raw_of(sensor_data@),
            reading.temperature_raw == temperature_raw_of(sensor_data@),
            reading.humidity_raw < 0x100000,
            reading.temperature_raw < 0x100000,
    {
        let humidity_raw: u32 = ((sensor_data[0] as u32) << 12) | ((sensor_data[1] as u32) << 4)
            | ((sensor_data[2] as u32) >> 4);
        let temperature_raw: u32 = (((sensor_data[2] as u32) & 0x0f) << 16) | ((sensor_data[3]
            as u32) << 8) | (sensor_data[4] as u32);
        proof {
            lemma_raw_fields_fit_20_bits(
                sensor_data@[0],
                sensor_data@[1],
                sensor_data@[2],
                sensor_data@[3],
                sensor_data@[4],
            );
        }
        SensorReading { humidity_raw, temperature_raw }
    }
}

} // verus!
