use vstd::prelude::*;

use crate::mac::MacAddress;
use crate::models::{Data, Device, DeviceStation, Station, data_key};

verus! {

/// Why a write to the catalog was refused.
#[derive(Clone, Copy, Debug, PartialEq, Eq, Structural)]
pub enum StoreError {
    /// The mac address is already taken (unique constraint).
    DuplicateMac,
    /// No more identifiers can be assigned.
    IdsExhausted,
    /// A traffic counter would leave the range of `i64`.
    Overflow,
    /// No station has this id.
    UnknownStation,
}

/// The persistent catalog: stations, devices, their links and per-minute
/// traffic, with the store's constraints and upsert rules.
pub struct Catalog {
    pub stations: Vec<Station>,
    pub devices: Vec<Device>,
    pub links: Vec<DeviceStation>,
    pub data: Vec<Data>,
    /// The id that the next inserted station gets.
    pub next_station_id: i32,
    /// The id that the next inserted device gets.
    pub next_device_id: i32,
}

/// Where a traffic row with this key stands, if any does.
pub open spec fn spec_key_index(rows: Seq<Data>, k: (i64, i32, i32)) -> Option<int> {
    if exists|i: int| 0 <= i < rows.len() && data_key(#[trigger] rows[i]) == k {
        Some(choose|i: int| 0 <= i < rows.len() && data_key(#[trigger] rows[i]) == k)
    } else {
        None
    }
}

pub open spec fn data_keys_unique(rows: Seq<Data>) -> bool {
    forall|i: int, j: int|
        0 <= i < rows.len() && 0 <= j < rows.len() && i != j ==> data_key(#[trigger] rows[i])
            != data_key(#[trigger] rows[j])
}

/// The counter of a row after `more` bytes are added to it.
pub open spec fn with_more(d: Data, more: i64) -> Data {
    Data { bytes_per_minute: (d.bytes_per_minute + more) as i64, ..d }
}

/// Whether adding `r` to the rows stays within `i64`.
pub open spec fn spec_upsert_fits(rows: Seq<Data>, r: Data) -> bool {
    match spec_key_index(rows, data_key(r)) {
        Some(i) => i64::MIN <= rows[i].bytes_per_minute + r.bytes_per_minute <= i64::MAX,
        None => true,
    }
}

/// Insert-or-add: a new key gets a row; an existing key has its counter
/// increased by the new value.
pub open spec fn spec_upsert(rows: Seq<Data>, r: Data) -> Seq<Data> {
    match spec_key_index(rows, data_key(r)) {
        Some(i) => rows.update(i, with_more(rows[i], r.bytes_per_minute)),
        None => rows.push(r),
    }
}

/// Insert unless present.
pub open spec fn spec_link_insert(links: Seq<DeviceStation>, l: DeviceStation) -> Seq<DeviceStation> {
    if links.contains(l) {
        links
    } else {
        links.push(l)
    }
}

/// The links after inserting `l` `n` times.
pub open spec fn spec_link_repeat(links: Seq<DeviceStation>, l: DeviceStation, n: nat) -> Seq<
    DeviceStation,
>
    decreases n,
{
    if n == 0 {
        links
    } else {
        spec_link_insert(spec_link_repeat(links, l, (n - 1) as nat), l)
    }
}

/// The index of the station with this mac address, if any.
pub open spec fn spec_station_index(stations: Seq<Station>, mac: MacAddress) -> Option<int> {
    if exists|i: int| 0 <= i < stations.len() && (#[trigger] stations[i]).mac_address@ == mac@ {
        Some(choose|i: int| 0 <= i < stations.len() && (#[trigger] stations[i]).mac_address@ == mac@)
    } else {
        None
    }
}

/// The index of the device with this mac address, if any.
pub open spec fn spec_device_index(devices: Seq<Device>, mac: MacAddress) -> Option<int> {
    if exists|i: int| 0 <= i < devices.len() && (#[trigger] devices[i]).mac_address@ == mac@ {
        Some(choose|i: int| 0 <= i < devices.len() && (#[trigger] devices[i]).mac_address@ == mac@)
    } else {
        None
    }
}

impl Catalog {
    /// The store's constraints: unique mac addresses and ids below the next
    /// id, unique links, one traffic row per key.
    pub open spec fn wf(&self) -> bool {
        &&& forall|i: int, j: int|
            0 <= i < self.stations@.len() && 0 <= j < self.stations@.len() && i != j
                ==> (#[trigger] self.stations@[i]).mac_address@ != (#[trigger] self.stations@[j]).mac_address@
        &&& forall|i: int, j: int|
            0 <= i < self.stations@.len() && 0 <= j < self.stations@.len() && i != j
                ==> (#[trigger] self.stations@[i]).id != (#[trigger] self.stations@[j]).id
        &&& forall|i: int|
            0 <= i < self.stations@.len() ==> (#[trigger] self.stations@[i]).id < self.next_station_id
        &&& forall|i: int, j: int|
            0 <= i < self.devices@.len() && 0 <= j < self.devices@.len() && i != j
                ==> (#[trigger] self.devices@[i]).mac_address@ != (#[trigger] self.devices@[j]).mac_address@
        &&& forall|i: int, j: int|
            0 <= i < self.devices@.len() && 0 <= j < self.devices@.len() && i != j
                ==> (#[trigger] self.devices@[i]).id != (#[trigger] self.devices@[j]).id
        &&& forall|i: int|
            0 <= i < self.devices@.len() ==> (#[trigger] self.devices@[i]).id < self.next_device_id
        &&& forall|i: int, j: int|
            0 <= i < self.links@.len() && 0 <= j < self.links@.len() && i != j
                ==> self.links@[i] != self.links@[j]
        &&& data_keys_unique(self.data@)
    }

    /// An empty catalog.
    pub fn new() -> (r: Catalog)
        ensures
            r.wf(),
            r.stations@.len() == 0,
            r.devices@.len() == 0,
            r.links@.len() == 0,
            r.data@.len() == 0,
            r.next_station_id == 1,
            r.next_device_id == 1,
    {
        Catalog {
            stations: Vec::new(),
            devices: Vec::new(),
            links: Vec::new(),
            data: Vec::new(),
            next_station_id: 1,
            next_device_id: 1,
        }
    }

    /// Where the station with this mac address stands.
    pub fn station_index(&self, mac: &MacAddress) -> (r: Option<usize>)
        requires
            self.wf(),
        ensures
            match r {
                Some(i) => spec_station_index(self.stations@, *mac) == Some(i as int),
                None => spec_station_index(self.stations@, *mac).is_none(),
            },
    {
        let mut i: usize = 0;
        while i < self.stations.len()
            invariant
                self.wf(),
                i <= self.stations@.len(),
                forall|j: int| 0 <= j < i ==> (#[trigger] self.stations@[j]).mac_address@ != mac@,
            decreases self.stations@.len() - i,
        {
            if self.stations[i].mac_address.same_as(mac) {
                proof {
                    assert(self.stations@[i as int].mac_address@ == mac@);
                    assert(exists|k: int| 0 <= k < self.stations@.len() && (#[trigger] self.stations@[k]).mac_address@ == mac@);
                    let c = choose|k: int| 0 <= k < self.stations@.len() && (#[trigger] self.stations@[k]).mac_address@ == mac@;
                    if c != i as int {
                        assert(self.stations@[c].mac_address@ != self.stations@[i as int].mac_address@);
                    }
                }
                return Some(i);
            }
            i = i + 1;
        }
        None
    }

    /// Where the device with this mac address stands.
    pub fn device_index(&self, mac: &MacAddress) -> (r: Option<usize>)
        requires
            self.wf(),
        ensures
            match r {
                Some(i) => spec_device_index(self.devices@, *mac) == Some(i as int),
                None => spec_device_index(self.devices@, *mac).is_none(),
            },
    {
        let mut i: usize = 0;
        while i < self.devices.len()
            invariant
                self.wf(),
                i <= self.devices@.len(),
                forall|j: int| 0 <= j < i ==> (#[trigger] self.devices@[j]).mac_address@ != mac@,
            decreases self.devices@.len() - i,
        {
            if self.devices[i].mac_address.same_as(mac) {
                proof {
                    assert(self.devices@[i as int].mac_address@ == mac@);
                    assert(exists|k: int| 0 <= k < self.devices@.len() && (#[trigger] self.devices@[k]).mac_address@ == mac@);
                    let c = choose|k: int| 0 <= k < self.devices@.len() && (#[trigger] self.devices@[k]).mac_address@ == mac@;
                    if c != i as int {
                        assert(self.devices@[c].mac_address@ != self.devices@[i as int].mac_address@);
                    }
                }
                return Some(i);
            }
            i = i + 1;
        }
        None
    }

    /// Inserts a station under a newly assigned id and returns the id. A new
    /// station is not watched until the user says so.
    pub fn persist_station(&mut self, station: Station) -> (r: Result<i32, StoreError>)
        requires
            old(self).wf(),
        ensures
            final(self).wf(),
            final(self).devices == old(self).devices,
            final(self).links == old(self).links,
            final(self).data == old(self).data,
            spec_station_index(old(self).stations@, station.mac_address).is_some() ==> r == Err::<
                i32,
                StoreError,
            >(StoreError::DuplicateMac),
            spec_station_index(old(self).stations@, station.mac_address).is_none()
                && old(self).next_station_id == i32::MAX ==> r == Err::<i32, StoreError>(
                StoreError::IdsExhausted,
            ),
            r.is_err() ==> *final(self) == *old(self),
            r matches Ok(id) ==> {
                &&& id == old(self).next_station_id
                &&& final(self).next_station_id == id + 1
                &&& final(self).next_device_id == old(self).next_device_id
                &&& final(self).stations@ == old(self).stations@.push(
                    Station { id, watch: false, ..station },
                )
            },
            spec_station_index(old(self).stations@, station.mac_address).is_none()
                && old(self).next_station_id < i32::MAX ==> r.is_ok(),
    {
        if self.station_index(&station.mac_address).is_some() {
            return Err(StoreError::DuplicateMac);
        }
        if self.next_station_id == i32::MAX {
            return Err(StoreError::IdsExhausted);
        }
        let id = self.next_station_id;
        assert forall|j: int| 0 <= j < self.stations@.len() implies (#[trigger] self.stations@[j]).mac_address@ != station.mac_address@ by {
            if self.stations@[j].mac_address@ == station.mac_address@ {
                assert(exists|k: int| 0 <= k < self.stations@.len() && (#[trigger] self.stations@[k]).mac_address@ == station.mac_address@);
            }
        }
        let mut s = station;
        s.id = id;
        s.watch = false;
        self.stations.push(s);
        self.next_station_id = id + 1;
        assert(forall|i: int| 0 <= i < old(self).stations@.len() ==> self.stations@[i] == old(self).stations@[i]);
        Ok(id)
    }

    /// Where the station with this id stands.
    pub fn station_index_by_id(&self, id: i32) -> (r: Option<usize>)
        requires
            self.wf(),
        ensures
            match r {
                Some(i) => i < self.stations@.len() && self.stations@[i as int].id == id,
                None => forall|j: int| 0 <= j < self.stations@.len() ==> (#[trigger] self.stations@[j]).id != id,
            },
    {
        let mut i: usize = 0;
        while i < self.stations.len()
            invariant
                i <= self.stations@.len(),
                forall|j: int| 0 <= j < i ==> (#[trigger] self.stations@[j]).id != id,
            decreases self.stations@.len() - i,
        {
            if self.stations[i].id == id {
                return Some(i);
            }
            i = i + 1;
        }
        None
    }

    /// Sets ssid, channel and signal strength of the station with this id.
    pub fn update_metadata(
        &mut self,
        id: i32,
        ssid: Option<Vec<u8>>,
        channel: i32,
        power_level: Option<i32>,
    ) -> (r: Result<(), StoreError>)
        requires
            old(self).wf(),
        ensures
            final(self).wf(),
            final(self).devices == old(self).devices,
            final(self).links == old(self).links,
            final(self).data == old(self).data,
            final(self).next_station_id == old(self).next_station_id,
            final(self).next_device_id == old(self).next_device_id,
            final(self).stations@.len() == old(self).stations@.len(),
            (exists|i: int| 0 <= i < old(self).stations@.len() && (#[trigger] old(self).stations@[i]).id == id) <==> r.is_ok(),
            r.is_err() ==> r == Err::<(), StoreError>(StoreError::UnknownStation),
            forall|i: int| 0 <= i < old(self).stations@.len() ==> {
                let o = #[trigger] old(self).stations@[i];
                let n = final(self).stations@[i];
                if o.id == id {
                    n == Station { ssid: ssid, channel: channel, power_level: power_level, ..o }
                } else {
                    n == o
                }
            },
    {
        match self.station_index_by_id(id) {
            None => Err(StoreError::UnknownStation),
            Some(i) => {
                let mut s = self.stations.remove(i);
                s.ssid = ssid;
                s.channel = channel;
                s.power_level = power_level;
                self.stations.insert(i, s);
                assert forall|j: int| 0 <= j < old(self).stations@.len() && j != i implies #[trigger] self.stations@[j] == old(self).stations@[j] by {}
                Ok(())
            },
        }
    }

    /// Inserts a device under a newly assigned id and returns the id. A new
    /// device is watched.
    pub fn persist_device(&mut self, device: Device) -> (r: Result<i32, StoreError>)
        requires
            old(self).wf(),
        ensures
            final(self).wf(),
            final(self).stations == old(self).stations,
            final(self).next_station_id == old(self).next_station_id,
            final(self).links == old(self).links,
            final(self).data == old(self).data,
            spec_device_index(old(self).devices@, device.mac_address).is_some() ==> r == Err::<
                i32,
                StoreError,
            >(StoreError::DuplicateMac),
            spec_device_index(old(self).devices@, device.mac_address).is_none()
                && old(self).next_device_id == i32::MAX ==> r == Err::<i32, StoreError>(
                StoreError::IdsExhausted,
            ),
            r.is_err() ==> *final(self) == *old(self),
            r matches Ok(id) ==> {
                &&& id == old(self).next_device_id
                &&& final(self).next_device_id == id + 1
                &&& final(self).devices@ == old(self).devices@.push(
                    Device { id, watch: true, ..device },
                )
            },
            spec_device_index(old(self).devices@, device.mac_address).is_none()
                && old(self).next_device_id < i32::MAX ==> r.is_ok(),
    {
        if self.device_index(&device.mac_address).is_some() {
            return Err(StoreError::DuplicateMac);
        }
        if self.next_device_id == i32::MAX {
            return Err(StoreError::IdsExhausted);
        }
        let id = self.next_device_id;
        assert forall|j: int| 0 <= j < self.devices@.len() implies (#[trigger] self.devices@[j]).mac_address@ != device.mac_address@ by {
            if self.devices@[j].mac_address@ == device.mac_address@ {
                assert(exists|k: int| 0 <= k < self.devices@.len() && (#[trigger] self.devices@[k]).mac_address@ == device.mac_address@);
            }
        }
        let mut d = device;
        d.id = id;
        d.watch = true;
        self.devices.push(d);
        self.next_device_id = id + 1;
        assert(forall|i: int| 0 <= i < old(self).devices@.len() ==> self.devices@[i] == old(self).devices@[i]);
        Ok(id)
    }

    /// Whether the link between this station and this device is recorded.
    pub fn link_exists(&self, station: i32, device: i32) -> (r: bool)
        ensures
            r == self.links@.contains((DeviceStation { device, station })),
    {
        let mut i: usize = 0;
        while i < self.links.len()
            invariant
                i <= self.links@.len(),
                forall|j: int| 0 <= j < i ==> self.links@[j] != (DeviceStation { device, station }),
            decreases self.links@.len() - i,
        {
            if self.links[i].station == station && self.links[i].device == device {
                assert(self.links@[i as int] == (DeviceStation { device, station }));
                return true;
            }
            i = i + 1;
        }
        false
    }

    /// Records a link; a link that is already there stays once.
    pub fn persist_link(&mut self, link: DeviceStation)
        requires
            old(self).wf(),
        ensures
            final(self).wf(),
            final(self).stations == old(self).stations,
            final(self).devices == old(self).devices,
            final(self).data == old(self).data,
            final(self).next_station_id == old(self).next_station_id,
            final(self).next_device_id == old(self).next_device_id,
            final(self).links@ == spec_link_insert(old(self).links@, link),
    {
        if !self.link_exists(link.station, link.device) {
            self.links.push(link);
        }
    }

    /// Where the traffic row with this key stands.
    pub fn data_index(&self, time: i64, device: i32, station: i32) -> (r: Option<usize>)
        requires
            self.wf(),
        ensures
            match r {
                Some(i) => spec_key_index(self.data@, (time, device, station)) == Some(i as int),
                None => spec_key_index(self.data@, (time, device, station)).is_none(),
            },
    {
        let mut i: usize = 0;
        while i < self.data.len()
            invariant
                self.wf(),
                i <= self.data@.len(),
                forall|j: int| 0 <= j < i ==> data_key(#[trigger] self.data@[j]) != (time, device, station),
            decreases self.data@.len() - i,
        {
            let d = self.data[i];
            if d.time == time && d.device == device && d.station == station {
                proof {
                    let k = (time, device, station);
                    assert(data_key(self.data@[i as int]) == k);
                    assert(exists|m: int| 0 <= m < self.data@.len() && data_key(#[trigger] self.data@[m]) == k);
                    let c = choose|m: int| 0 <= m < self.data@.len() && data_key(#[trigger] self.data@[m]) == k;
                    if c != i as int {
                        assert(data_key(self.data@[c]) != data_key(self.data@[i as int]));
                    }
                }
                return Some(i);
            }
            i = i + 1;
        }
        None
    }

    /// Insert-or-add: the first row for a key is inserted; a later one adds
    /// its bytes to the counter already there.
    pub fn persist_data(&mut self, row: Data) -> (r: Result<(), StoreError>)
        requires
            old(self).wf(),
        ensures
            final(self).wf(),
            final(self).stations == old(self).stations,
            final(self).devices == old(self).devices,
            final(self).links == old(self).links,
            final(self).next_station_id == old(self).next_station_id,
            final(self).next_device_id == old(self).next_device_id,
            r.is_ok() <==> spec_upsert_fits(old(self).data@, row),
            r.is_ok() ==> final(self).data@ == spec_upsert(old(self).data@, row),
            r.is_err() ==> r == Err::<(), StoreError>(StoreError::Overflow) && *final(self) == *old(self),
    {
        match self.data_index(row.time, row.device, row.station) {
            Some(i) => {
                let cur = self.data[i];
                let sum = cur.bytes_per_minute.checked_add(row.bytes_per_minute);
                match sum {
                    None => Err(StoreError::Overflow),
                    Some(total) => {
                        let updated = Data { bytes_per_minute: total, ..cur };
                        self.data.set(i, updated);
                        proof {
                            assert forall|a: int, b: int|
                                0 <= a < self.data@.len() && 0 <= b < self.data@.len() && a != b
                                implies data_key(#[trigger] self.data@[a]) != data_key(#[trigger] self.data@[b]) by {
                                assert(data_key(old(self).data@[a]) != data_key(old(self).data@[b]));
                            }
                            assert(self.data@ =~= old(self).data@.update(i as int, with_more(old(self).data@[i as int], row.bytes_per_minute)));
                        }
                        Ok(())
                    },
                }
            },
            None => {
                self.data.push(row);
                proof {
                    assert forall|a: int, b: int|
                        0 <= a < self.data@.len() && 0 <= b < self.data@.len() && a != b
                        implies data_key(#[trigger] self.data@[a]) != data_key(#[trigger] self.data@[b]) by {
                        if a < old(self).data@.len() && b < old(self).data@.len() {
                            assert(data_key(old(self).data@[a]) != data_key(old(self).data@[b]));
                        } else if a < old(self).data@.len() {
                            assert(!(0 <= a < old(self).data@.len() && data_key(old(self).data@[a]) == data_key(row)));
                        } else {
                            assert(!(0 <= b < old(self).data@.len() && data_key(old(self).data@[b]) == data_key(row)));
                        }
                    }
                }
                Ok(())
            },
        }
    }

    /// Takes a station read from the store into the catalog, keeping its id.
    /// Refused when its mac address or its id is already taken, or when no id
    /// would be left after it.
    pub fn add_known_station(&mut self, station: Station) -> (r: Result<(), StoreError>)
        requires
            old(self).wf(),
        ensures
            final(self).wf(),
            final(self).devices == old(self).devices,
            final(self).next_device_id == old(self).next_device_id,
            final(self).links == old(self).links,
            final(self).data == old(self).data,
            spec_station_index(old(self).stations@, station.mac_address).is_some() ==> r == Err::<(), StoreError>(StoreError::DuplicateMac),
            r.is_err() ==> *final(self) == *old(self),
            r.is_ok() ==> final(self).stations@ == old(self).stations@.push(station),
            r.is_ok() <==> (spec_station_index(old(self).stations@, station.mac_address).is_none()
                && station.id < i32::MAX
                && forall|i: int| 0 <= i < old(self).stations@.len() ==> (#[trigger] old(self).stations@[i]).id != station.id),
    {
        if self.station_index(&station.mac_address).is_some() {
            return Err(StoreError::DuplicateMac);
        }
        if station.id == i32::MAX || self.station_index_by_id(station.id).is_some() {
            return Err(StoreError::IdsExhausted);
        }
        assert forall|j: int| 0 <= j < self.stations@.len() implies (#[trigger] self.stations@[j]).mac_address@ != station.mac_address@ by {
            if self.stations@[j].mac_address@ == station.mac_address@ {
                assert(exists|k: int| 0 <= k < self.stations@.len() && (#[trigger] self.stations@[k]).mac_address@ == station.mac_address@);
            }
        }
        if station.id >= self.next_station_id {
            self.next_station_id = station.id + 1;
        }
        self.stations.push(station);
        assert(forall|i: int| 0 <= i < old(self).stations@.len() ==> self.stations@[i] == old(self).stations@[i]);
        Ok(())
    }

    /// Where the device with this id stands.
    pub fn device_index_by_id(&self, id: i32) -> (r: Option<usize>)
        ensures
            match r {
                Some(i) => i < self.devices@.len() && self.devices@[i as int].id == id,
                None => forall|j: int| 0 <= j < self.devices@.len() ==> (#[trigger] self.devices@[j]).id != id,
            },
    {
        let mut i: usize = 0;
        while i < self.devices.len()
            invariant
                i <= self.devices@.len(),
                forall|j: int| 0 <= j < i ==> (#[trigger] self.devices@[j]).id != id,
            decreases self.devices@.len() - i,
        {
            if self.devices[i].id == id {
                return Some(i);
            }
            i = i + 1;
        }
        None
    }

    /// Takes a device read from the store into the catalog, keeping its id.
    /// Refused when its mac address or its id is already taken, or when no id
    /// would be left after it.
    pub fn add_known_device(&mut self, device: Device) -> (r: Result<(), StoreError>)
        requires
            old(self).wf(),
        ensures
            final(self).wf(),
            final(self).stations == old(self).stations,
            final(self).next_station_id == old(self).next_station_id,
            final(self).links == old(self).links,
            final(self).data == old(self).data,
            spec_device_index(old(self).devices@, device.mac_address).is_some() ==> r == Err::<(), StoreError>(StoreError::DuplicateMac),
            r.is_err() ==> *final(self) == *old(self),
            r.is_ok() ==> final(self).devices@ == old(self).devices@.push(device),
            r.is_ok() <==> (spec_device_index(old(self).devices@, device.mac_address).is_none()
                && device.id < i32::MAX
                && forall|i: int| 0 <= i < old(self).devices@.len() ==> (#[trigger] old(self).devices@[i]).id != device.id),
    {
        if self.device_index(&device.mac_address).is_some() {
            return Err(StoreError::DuplicateMac);
        }
        if device.id == i32::MAX || self.device_index_by_id(device.id).is_some() {
            return Err(StoreError::IdsExhausted);
        }
        assert forall|j: int| 0 <= j < self.devices@.len() implies (#[trigger] self.devices@[j]).mac_address@ != device.mac_address@ by {
            if self.devices@[j].mac_address@ == device.mac_address@ {
                assert(exists|k: int| 0 <= k < self.devices@.len() && (#[trigger] self.devices@[k]).mac_address@ == device.mac_address@);
            }
        }
        if device.id >= self.next_device_id {
            self.next_device_id = device.id + 1;
        }
        self.devices.push(device);
        assert(forall|i: int| 0 <= i < old(self).devices@.len() ==> self.devices@[i] == old(self).devices@[i]);
        Ok(())
    }

    /// Forgets the traffic rows, which the store keeps; the rest stays.
    pub fn clear_data(&mut self)
        requires
            old(self).wf(),
        ensures
            final(self).wf(),
            final(self).data@.len() == 0,
            final(self).stations == old(self).stations,
            final(self).devices == old(self).devices,
            final(self).links == old(self).links,
            final(self).next_station_id == old(self).next_station_id,
            final(self).next_device_id == old(self).next_device_id,
    {
        self.data = Vec::new();
    }
}

/// Persisting two traffic rows for the same minute, device and station, in
/// either order, leaves a single row for that key whose counter is the sum
/// of both.
pub proof fn lemma_data_accumulates(rows: Seq<Data>, r1: Data, r2: Data)
    requires
        data_keys_unique(rows),
        data_key(r1) == data_key(r2),
        spec_key_index(rows, data_key(r1)).is_none(),
        i64::MIN <= r1.bytes_per_minute + r2.bytes_per_minute <= i64::MAX,
    ensures
        spec_upsert_fits(spec_upsert(rows, r1), r2),
        spec_upsert_fits(spec_upsert(rows, r2), r1),
        spec_upsert(spec_upsert(rows, r1), r2) == rows.push(with_more(r1, r2.bytes_per_minute)),
        spec_upsert(spec_upsert(rows, r2), r1) == rows.push(with_more(r1, r2.bytes_per_minute)),
{
    lemma_upsert_new_then_same(rows, r1, r2);
    lemma_upsert_new_then_same(rows, r2, r1);
    assert(with_more(r2, r1.bytes_per_minute) == with_more(r1, r2.bytes_per_minute));
}

proof fn lemma_upsert_new_then_same(rows: Seq<Data>, r1: Data, r2: Data)
    requires
        data_key(r1) == data_key(r2),
        spec_key_index(rows, data_key(r1)).is_none(),
        i64::MIN <= r1.bytes_per_minute + r2.bytes_per_minute <= i64::MAX,
    ensures
        spec_upsert_fits(spec_upsert(rows, r1), r2),
        spec_upsert(spec_upsert(rows, r1), r2) == rows.push(with_more(r1, r2.bytes_per_minute)),
{
    let k = data_key(r1);
    let once = rows.push(r1);
    assert(spec_upsert(rows, r1) == once);
    let n = rows.len() as int;
    assert(data_key(once[n]) == k);
    assert(exists|i: int| 0 <= i < once.len() && data_key(#[trigger] once[i]) == k);
    let c = choose|i: int| 0 <= i < once.len() && data_key(#[trigger] once[i]) == k;
    if c != n {
        assert(once[c] == rows[c]);
        assert(0 <= c < rows.len() && data_key(rows[c]) == k);
    }
    assert(spec_key_index(once, k) == Some(n));
    assert(once.update(n, with_more(once[n], r2.bytes_per_minute)) =~= rows.push(with_more(r1, r2.bytes_per_minute)));
}

/// Persisting the same link any positive number of times leaves exactly one
/// row for it.
pub proof fn lemma_link_idempotent(links: Seq<DeviceStation>, l: DeviceStation, n: nat)
    requires
        !links.contains(l),
        n >= 1,
    ensures
        spec_link_repeat(links, l, n) == links.push(l),
    decreases n,
{
    if n == 1 {
        assert(spec_link_repeat(links, l, 0) == links);
    } else {
        lemma_link_idempotent(links, l, (n - 1) as nat);
        assert(links.push(l)[links.len() as int] == l);
        assert(links.push(l).contains(l));
    }
}

} // verus!
