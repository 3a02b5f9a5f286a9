use vstd::prelude::*;

use crate::mac::MacAddress;

verus! {

/// An access point.
#[derive(Clone, Debug)]
pub struct Station {
    /// Assigned by the catalog.
    pub id: i32,
    /// Unique over all stations.
    pub mac_address: MacAddress,
    pub ssid: Option<Vec<u8>>,
    /// Channel number, not MHz.
    pub channel: i32,
    /// Signal strength in dBm.
    pub power_level: Option<i32>,
    pub nickname: Option<String>,
    pub description: Option<String>,
    /// Set by the user: traffic with this station is counted.
    pub watch: bool,
}

/// An endpoint that is not an access point.
#[derive(Clone, Debug)]
pub struct Device {
    /// Assigned by the catalog.
    pub id: i32,
    /// Unique over all devices.
    pub mac_address: MacAddress,
    pub nickname: Option<String>,
    pub description: Option<String>,
    /// Traffic with this device is counted.
    pub watch: bool,
}

/// The fact that a device was seen exchanging data with a station.
#[derive(Clone, Copy, Debug, PartialEq, Eq, Structural)]
pub struct DeviceStation {
    pub device: i32,
    pub station: i32,
}

/// Traffic between a device and a station within one minute.
#[derive(Clone, Copy, Debug, PartialEq, Eq, Structural)]
pub struct Data {
    /// The minute, counted from the Unix epoch in UTC.
    pub time: i64,
    pub device: i32,
    pub station: i32,
    /// Bytes observed in that minute.
    pub bytes_per_minute: i64,
}

/// What identifies a traffic row: minute, device and station.
pub open spec fn data_key(d: Data) -> (i64, i32, i32) {
    (d.time, d.device, d.station)
}

/// Milliseconds per minute.
pub const MILLIS_PER_MINUTE: i64 = 60000;

/// The minute that an instant (milliseconds since the Unix epoch) falls in,
/// rounded down.
pub open spec fn spec_minute_of(millis: i64) -> int {
    (millis as int) / (MILLIS_PER_MINUTE as int)
}

/// Truncates an instant in milliseconds to its minute since the epoch.
pub fn minute_of(millis: i64) -> (r: i64)
    ensures
        r == spec_minute_of(millis),
{
    let q = millis / MILLIS_PER_MINUTE;
    let m = millis % MILLIS_PER_MINUTE;
    if m < 0 {
        q - 1
    } else {
        q
    }
}

} // verus!
