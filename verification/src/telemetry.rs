//! Canonical telemetry records: the sensor readings of one message, the
//! timestamped sample built from them, and the device-connect record.

use vstd::prelude::*;

verus! {

/// The mathematical content of a [`Values`] record.
pub struct ValuesModel {
    pub temperature: int,
    pub humidity: int,
    pub rain_height: int,
    pub wind_direction: int,
    pub wind_intensity: int,
}

/// One message's sensor readings, offset-adjusted and signed.
#[derive(Clone, Copy, PartialEq, Eq, Structural, Debug)]
pub struct Values {
    pub temperature: i16,
    pub humidity: i16,
    pub rain_height: i16,
    pub wind_direction: i16,
    pub wind_intensity: i16,
}

impl View for Values {
    type V = ValuesModel;

    open spec fn view(&self) -> ValuesModel {
        ValuesModel {
            temperature: self.temperature as int,
            humidity: self.humidity as int,
            rain_height: self.rain_height as int,
            wind_direction: self.wind_direction as int,
            wind_intensity: self.wind_intensity as int,
        }
    }
}

impl Values {
    pub fn new(
        temperature: i16,
        humidity: i16,
        wind_direction: i16,
        wind_intensity: i16,
        rain_height: i16,
    ) -> (r: Self)
        ensures
            r.temperature == temperature,
            r.humidity == humidity,
            r.rain_height == rain_height,
            r.wind_direction == wind_direction,
            r.wind_intensity == wind_intensity,
    {
        Self { temperature, humidity, rain_height, wind_direction, wind_intensity }
    }
}

/// The mathematical content of a [`Sensor`] sample.
pub struct SensorModel {
    pub ts: int,
    pub values: ValuesModel,
}

/// One telemetry sample: readings plus the wall-clock capture time in
/// milliseconds since the epoch.
#[derive(Clone, Copy, PartialEq, Eq, Structural, Debug)]
pub struct Sensor {
    pub ts: u128,
    pub values: Values,
}

impl View for Sensor {
    type V = SensorModel;

    open spec fn view(&self) -> SensorModel {
        SensorModel { ts: self.ts as int, values: self.values@ }
    }
}

impl Sensor {
    pub fn new(ts: u128, values: Values) -> (r: Self)
        ensures
            r.ts == ts,
            r.values == values,
    {
        Self { ts, values }
    }
}

/// The record announced downstream when a device is first seen.
pub struct Device<'a> {
    pub device: &'a str,
}

impl<'a> Device<'a> {
    pub fn new(device: &'a str) -> (r: Self)
        ensures
            r.device@ == device@,
    {
        Self { device }
    }
}

/// Relies on `std::time::SystemTime::now` and
/// `SystemTime::duration_since(UNIX_EPOCH)` for the wall clock, read as
/// milliseconds; a clock before the epoch reads as zero. Nothing is assumed
/// of the value returned.
#[verifier::external_body]
fn now_millis() -> u128 {
    std::time::SystemTime::now()
        .duration_since(std::time::UNIX_EPOCH)
        .map_or(0, |d| d.as_millis())
}

/// Build a sample from readings, stamped with the wall clock at the moment
/// of the call.
pub fn generate_telemtry_packet(values: Values) -> (r: Sensor)
    ensures
        r.values == values,
{
    let in_ms = now_millis();
    Sensor::new(in_ms, values)
}

} // verus!
