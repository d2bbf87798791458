//! Decoding of raw sensor notification payloads into typed readings.
//!
//! A payload is exactly five bytes: a signed 16-bit little-endian
//! temperature in hundredths of a degree Celsius, an unsigned humidity
//! percentage, and an unsigned 16-bit little-endian battery voltage in
//! millivolts, from which a battery percentage is derived.

use vstd::prelude::*;
use vstd::string::*;

use crate::text::{decimal_string, fixed_point_string, spec_decimal, spec_fixed_point};

verus! {

/// One decoded sensor reading.
#[derive(Clone, Copy, PartialEq, Eq, Structural, Debug)]
pub struct Readings {
    /// Temperature in hundredths of a degree Celsius (a signed
    /// fixed-point value with two decimal digits of precision).
    pub temperature_centi: i16,
    /// Percent humidity, used as the sensor reports it (no clamping).
    pub humidity: u8,
    /// Battery voltage in millivolts.
    pub battery_voltage: u16,
    /// Battery percentage inferred from `battery_voltage` by a hand-tuned
    /// linear approximation.
    pub battery_percent: u16,
}

/// Battery percentage derived from the measured voltage in millivolts:
/// a hand-tuned linear approximation that floors to zero below 2100 mV.
pub open spec fn spec_battery_percent(voltage: int) -> int {
    if voltage < 2100 {
        0
    } else {
        (voltage - 2100) / 10
    }
}

/// The signed 16-bit value read little-endian from two bytes.
pub open spec fn spec_i16_le(lo: int, hi: int) -> int
    recommends
        0 <= lo < 256,
        0 <= hi < 256,
{
    let raw = lo + 256 * hi;
    if raw < 32768 {
        raw
    } else {
        raw - 65536
    }
}

/// The reading denoted by a well-formed five-byte payload.
pub open spec fn spec_decode(bytes: Seq<u8>) -> Readings
    recommends
        bytes.len() == 5,
{
    Readings {
        temperature_centi: spec_i16_le(bytes[0] as int, bytes[1] as int) as i16,
        humidity: bytes[2],
        battery_voltage: (bytes[3] + 256 * bytes[4]) as u16,
        battery_percent: spec_battery_percent(bytes[3] + 256 * bytes[4]) as u16,
    }
}

/// Battery percentage from a voltage in millivolts; never negative.
pub fn battery_percent_from_voltage(voltage: u16) -> (percent: u16)
    ensures
        percent == spec_battery_percent(voltage as int),
        voltage < 2100 ==> percent == 0,
{
    let floored: u16 = if voltage > 2100 {
        voltage
    } else {
        2100
    };
    (floored - 2100) / 10
}

/// Voltages at or below the 2100 mV floor always give a battery
/// percentage of exactly zero, never a negative value.
pub proof fn lemma_battery_percent_floor(voltage: int)
    ensures
        voltage <= 2100 ==> spec_battery_percent(voltage) == 0,
        spec_battery_percent(voltage) >= 0,
{
}

/// Decodes a raw notification payload. Returns a reading exactly when
/// the payload is five bytes long; any other length yields `None`
/// (malformed and foreign notifications are expected and ignored).
pub fn decode_value(value: &[u8]) -> (r: Option<Readings>)
    ensures
        r is Some <==> value@.len() == 5,
        r matches Some(readings) ==> readings == spec_decode(value@),
{
    if value.len() != 5 {
        return None;
    }
    let lo = value[0];
    let hi = value[1];
    let raw: u16 = (lo as u16) + 256 * (hi as u16);
    let temperature_centi: i16 = if raw < 32768 {
        raw as i16
    } else {
        let magnitude: u32 = 65536 - (raw as u32);
        -((magnitude as i32)) as i16
    };
    let humidity = value[2];
    let battery_voltage: u16 = (value[3] as u16) + 256 * (value[4] as u16);
    let battery_percent = battery_percent_from_voltage(battery_voltage);
    Some(
        Readings {
            temperature_centi,
            humidity,
            battery_voltage,
            battery_percent,
        },
    )
}

impl Readings {
    /// The temperature as a decimal string with two digits after the
    /// decimal point, for example "2.32" or "-0.05".
    pub fn temperature_string(&self) -> (r: String)
        ensures
            r@ == spec_fixed_point(self.temperature_centi as int),
    {
        fixed_point_string(self.temperature_centi as i32)
    }

    /// The human-readable one-line form of the reading, as printed when a
    /// notification arrives.
    pub fn display_string(&self) -> (r: String)
        ensures
            r@ == spec_readings_display(*self),
    {
        let mut s = String::from_str("Temperature: ");
        proof {
            reveal_strlit("Temperature: ");
            reveal_strlit("\u{00ba}C Humidity: ");
            reveal_strlit("% Battery: ");
            reveal_strlit(" mV (");
            reveal_strlit("%)");
        }
        s.append(self.temperature_string().as_str());
        s.append("\u{00ba}C Humidity: ");
        s.append(decimal_string(self.humidity as u32).as_str());
        s.append("% Battery: ");
        s.append(decimal_string(self.battery_voltage as u32).as_str());
        s.append(" mV (");
        s.append(decimal_string(self.battery_percent as u32).as_str());
        s.append("%)");
        proof {
            assert(s@ =~= spec_readings_display(*self));
        }
        s
    }
}

/// The one-line display form of a reading.
pub open spec fn spec_readings_display(r: Readings) -> Seq<char> {
    "Temperature: "@ + spec_fixed_point(r.temperature_centi as int) + "\u{00ba}C Humidity: "@
        + spec_decimal(r.humidity as int) + "% Battery: "@ + spec_decimal(r.battery_voltage as int)
        + " mV ("@ + spec_decimal(r.battery_percent as int) + "%)"@
}

} // verus!
