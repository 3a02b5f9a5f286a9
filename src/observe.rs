use vstd::prelude::*;

use crate::catalog::{Catalog, StoreError, lemma_data_accumulates, spec_key_index, with_more, spec_device_index, spec_link_insert, spec_station_index, spec_upsert, spec_upsert_fits};
use crate::channels::{get_mhz_to_channel, spec_mhz_to_channel};
use crate::elements::opt_vec;
use crate::frame::{BlockAckInfo, Frame, FrameBody};
use crate::header::{spec_dest_addr, spec_src_addr};
use crate::mac::{MacAddress, spec_is_real_device};
use crate::models::{Data, Device, DeviceStation, Station};
use crate::radio::RadioInfo;

verus! {

/// A change to the catalog, to be carried over to the persistent store.
#[derive(Clone, Debug)]
pub enum Write {
    InsertStation(Station),
    UpdateStation { id: i32, ssid: Option<Vec<u8>>, channel: i32, power_level: Option<i32> },
    InsertDevice(Device),
    /// Insert-or-add of a traffic row.
    AddData(Data),
    /// Insert-unless-present of a link.
    InsertLink(DeviceStation),
}

/// Which side of a data exchange is the known station, and the other side's
/// address: exactly one of source and destination must be a station; with
/// none or both there is no pair to count.
pub open spec fn spec_roles(stations: Seq<Station>, src: MacAddress, dest: MacAddress) -> Option<(int, MacAddress)> {
    match (spec_station_index(stations, src), spec_station_index(stations, dest)) {
        (Some(i), None) => Some((i, dest)),
        (None, Some(i)) => Some((i, src)),
        _ => None,
    }
}

/// The byte count that a frame contributes to the traffic counters: the
/// payload of data frames, the synthetic weight of block acknowledgements.
/// A payload too long for the counters' type contributes nothing.
pub open spec fn spec_frame_weight(body: FrameBody) -> Option<int> {
    match body {
        FrameBody::Data { payload_len } => if payload_len <= i64::MAX { Some(payload_len as int) } else { None },
        FrameBody::QosData { payload_len } => if payload_len <= i64::MAX { Some(payload_len as int) } else { None },
        FrameBody::BlockAck(BlockAckInfo::Basic) => Some(100),
        FrameBody::BlockAck(BlockAckInfo::Compressed(n)) => Some(500 * n),
        _ => None,
    }
}

/// The byte count that a frame contributes, if it is one that carries traffic.
pub fn frame_weight(body: &FrameBody) -> (r: Option<i64>)
    ensures
        match spec_frame_weight(*body) {
            Some(w) => r == Some(w as i64) && 0 <= w <= i64::MAX,
            None => r.is_none(),
        },
{
    match body {
        FrameBody::Data { payload_len } => {
            if *payload_len as u64 <= i64::MAX as u64 { Some(*payload_len as i64) } else { None }
        },
        FrameBody::QosData { payload_len } => {
            if *payload_len as u64 <= i64::MAX as u64 { Some(*payload_len as i64) } else { None }
        },
        FrameBody::BlockAck(info) => Some(info.weight() as i64),
        _ => None,
    }
}

/// The traffic row that an exchange of `bytes` in `minute` gives.
pub open spec fn spec_row(st: Station, dev: Device, bytes: i64, minute: i64) -> Data {
    Data { time: minute, device: dev.id, station: st.id, bytes_per_minute: bytes }
}

pub open spec fn spec_link(st: Station, dev: Device) -> DeviceStation {
    DeviceStation { device: dev.id, station: st.id }
}

/// The device that is registered for a newly seen address.
pub open spec fn spec_new_device(id: i32, mac: MacAddress) -> Device {
    Device { id, mac_address: mac, nickname: None, description: None, watch: true }
}

/// The link that a traffic row implies.
pub open spec fn link_of(row: Data) -> DeviceStation {
    DeviceStation { device: row.device, station: row.station }
}

/// The writes of counting `row`: the row itself, then its link unless the
/// link is already recorded.
pub open spec fn spec_count_writes(links: Seq<DeviceStation>, row: Data) -> Seq<Write> {
    seq![Write::AddData(row)] + if links.contains(link_of(row)) {
        Seq::<Write>::empty()
    } else {
        seq![Write::InsertLink(link_of(row))]
    }
}

/// Counting `row` changes the traffic rows and the links only, and returns
/// `prefix` followed by the writes of the count.
pub open spec fn spec_counted(before: Catalog, after: Catalog, r: Result<Vec<Write>, StoreError>, row: Data, prefix: Seq<Write>) -> bool {
    &&& after.data@ == spec_upsert(before.data@, row)
    &&& after.links@ == spec_link_insert(before.links@, link_of(row))
    &&& r matches Ok(w) && w@ == prefix + spec_count_writes(before.links@, row)
}

/// Nothing changed and nothing was written.
pub open spec fn spec_ignored(before: Catalog, after: Catalog, r: Result<Vec<Write>, StoreError>) -> bool {
    after == before && (r matches Ok(w) && w@.len() == 0)
}

/// What counting a data exchange does to the catalog, and what it returns:
/// see `Catalog::log_data_frame`.
pub open spec fn spec_logged(
    before: Catalog,
    after: Catalog,
    r: Result<Vec<Write>, StoreError>,
    src: MacAddress,
    dest: MacAddress,
    bytes: i64,
    minute: i64,
) -> bool {
    &&& after.wf()
    &&& after.stations == before.stations
    &&& after.next_station_id == before.next_station_id
    &&& match spec_roles(before.stations@, src, dest) {
        None => spec_ignored(before, after, r),
        Some((si, dm)) => {
            let st = before.stations@[si];
            if !spec_is_real_device(dm@) {
                spec_ignored(before, after, r)
            } else {
                match spec_device_index(before.devices@, dm) {
                    Some(di) => {
                        let dev = before.devices@[di];
                        let row = spec_row(st, dev, bytes, minute);
                        if !(st.watch && dev.watch) {
                            spec_ignored(before, after, r)
                        } else if !spec_upsert_fits(before.data@, row) {
                            after == before && r == Err::<Vec<Write>, StoreError>(StoreError::Overflow)
                        } else {
                            &&& after.devices == before.devices
                            &&& after.next_device_id == before.next_device_id
                            &&& spec_counted(before, after, r, row, Seq::empty())
                        }
                    },
                    None => {
                        let dev = spec_new_device(before.next_device_id, dm);
                        let row = spec_row(st, dev, bytes, minute);
                        if before.next_device_id == i32::MAX {
                            after == before && r == Err::<Vec<Write>, StoreError>(StoreError::IdsExhausted)
                        } else if st.watch && !spec_upsert_fits(before.data@, row) {
                            after == before && r == Err::<Vec<Write>, StoreError>(StoreError::Overflow)
                        } else {
                            &&& after.devices@ == before.devices@.push(dev)
                            &&& after.next_device_id == before.next_device_id + 1
                            &&& if st.watch {
                                spec_counted(before, after, r, row, seq![Write::InsertDevice(dev)])
                            } else {
                                &&& after.data == before.data
                                &&& after.links == before.links
                                &&& r matches Ok(w) && w@ == seq![Write::InsertDevice(dev)]
                            }
                        }
                    },
                }
            }
        },
    }
}

impl Catalog {
    /// Counts a data exchange between two addresses. Exactly one side must be
    /// a known station (with both or neither the frame is dropped); the other must be a
    /// real device, which is registered (watched) when new. Traffic between a
    /// watched station and a watched device is added to the row of `minute`
    /// and their link is recorded. Returns the writes made.
    pub fn log_data_frame(&mut self, src: MacAddress, dest: MacAddress, bytes: i64, minute: i64) -> (r: Result<Vec<Write>, StoreError>)
        requires
            old(self).wf(),
        ensures
            spec_logged(*old(self), *final(self), r, src, dest, bytes, minute),
    {
        let writes: Vec<Write> = Vec::new();
        let (si, device_mac) = match (self.station_index(&src), self.station_index(&dest)) {
            (Some(i), None) => (i, dest),
            (None, Some(i)) => (i, src),
            _ => {
                return Ok(writes);
            },
        };
        if !device_mac.is_real_device() {
            return Ok(writes);
        }
        let station_id = self.stations[si].id;
        let station_watch = self.stations[si].watch;
        match self.device_index(&device_mac) {
            Some(di) => {
                let device_id = self.devices[di].id;
                let device_watch = self.devices[di].watch;
                if !(station_watch && device_watch) {
                    return Ok(writes);
                }
                let row = Data { time: minute, device: device_id, station: station_id, bytes_per_minute: bytes };
                self.count_traffic(row, writes)
            },
            None => {
                let id = self.next_device_id;
                if id == i32::MAX {
                    return Err(StoreError::IdsExhausted);
                }
                let row = Data { time: minute, device: id, station: station_id, bytes_per_minute: bytes };
                if station_watch && !self.upsert_fits(&row) {
                    return Err(StoreError::Overflow);
                }
                let device = Device { id: 0, mac_address: device_mac, nickname: None, description: None, watch: true };
                let id = self.persist_device(device)?;
                let mut writes = writes;
                writes.push(
                    Write::InsertDevice(
                        Device { id, mac_address: device_mac, nickname: None, description: None, watch: true },
                    ),
                );
                if !station_watch {
                    return Ok(writes);
                }
                self.count_traffic(row, writes)
            },
        }
    }

    /// Whether adding `row` keeps its counter within `i64`.
    pub fn upsert_fits(&self, row: &Data) -> (r: bool)
        requires
            self.wf(),
        ensures
            r == spec_upsert_fits(self.data@, *row),
    {
        match self.data_index(row.time, row.device, row.station) {
            Some(i) => self.data[i].bytes_per_minute.checked_add(row.bytes_per_minute).is_some(),
            None => true,
        }
    }

    /// Adds `row` to the traffic and records its link; `writes` is returned
    /// with the writes made appended.
    pub fn count_traffic(&mut self, row: Data, writes: Vec<Write>) -> (r: Result<Vec<Write>, StoreError>)
        requires
            old(self).wf(),
        ensures
            final(self).wf(),
            final(self).stations == old(self).stations,
            final(self).devices == old(self).devices,
            final(self).next_station_id == old(self).next_station_id,
            final(self).next_device_id == old(self).next_device_id,
            spec_upsert_fits(old(self).data@, row) ==> spec_counted(*old(self), *final(self), r, row, writes@),
            !spec_upsert_fits(old(self).data@, row) ==> *final(self) == *old(self) && r == Err::<Vec<Write>, StoreError>(StoreError::Overflow),
    {
        let mut writes = writes;
        let ghost prefix = writes@;
        let ghost links0 = self.links@;
        self.persist_data(row)?;
        writes.push(Write::AddData(row));
        let link = DeviceStation { device: row.device, station: row.station };
        if !self.link_exists(row.station, row.device) {
            self.persist_link(link);
            writes.push(Write::InsertLink(link));
            assert(writes@ =~= prefix + spec_count_writes(links0, row));
        } else {
            assert(writes@ =~= prefix + spec_count_writes(links0, row));
        }
        Ok(writes)
    }

    /// Applies a beacon from `src`, heard on `channel`: a new station is
    /// inserted (not watched); a known one has its ssid, channel and signal
    /// updated during a sweep and is left alone otherwise.
    pub fn observe_beacon(
        &mut self,
        src: MacAddress,
        ssid: &Option<Vec<u8>>,
        channel: i32,
        power_level: Option<i32>,
        doing_sweep: bool,
    ) -> (r: Result<Vec<Write>, StoreError>)
        requires
            old(self).wf(),
        ensures
            spec_beacon_seen(*old(self), *final(self), r, src, opt_vec(*ssid), channel, power_level, doing_sweep),
    {
        let mut writes: Vec<Write> = Vec::new();
        match self.station_index(&src) {
            Some(i) => {
                if doing_sweep {
                    let id = self.stations[i].id;
                    assert(self.stations@[i as int].id == id);
                    self.update_metadata(id, copy_bytes(ssid), channel, power_level)?;
                    writes.push(Write::UpdateStation { id, ssid: copy_bytes(ssid), channel, power_level });
                }
                Ok(writes)
            },
            None => {
                let station = Station {
                    id: 0,
                    mac_address: src,
                    ssid: copy_bytes(ssid),
                    channel,
                    power_level,
                    nickname: None,
                    description: None,
                    watch: false,
                };
                let id = self.persist_station(station)?;
                assert(self.stations@.subrange(0, old(self).stations@.len() as int) =~= old(self).stations@);
                writes.push(
                    Write::InsertStation(
                        Station {
                            id,
                            mac_address: src,
                            ssid: copy_bytes(ssid),
                            channel,
                            power_level,
                            nickname: None,
                            description: None,
                            watch: false,
                        },
                    ),
                );
                Ok(writes)
            },
        }
    }

    /// Applies a decoded frame heard with `radio`: beacons whose frequency is
    /// a known channel maintain the stations; data frames and block
    /// acknowledgements count traffic between their source and destination;
    /// everything else is ignored. Returns the writes made.
    pub fn handle_frame(&mut self, frame: &Frame, radio: &RadioInfo, doing_sweep: bool, minute: i64) -> (r: Result<Vec<Write>, StoreError>)
        requires
            old(self).wf(),
        ensures
            final(self).wf(),
            match frame.body {
                FrameBody::Beacon(bb) => {
                    match (spec_src_addr(frame.header), radio.channel_freq) {
                        (Some(src), Some(freq)) => match spec_mhz_to_channel(freq) {
                            Some(channel) => spec_beacon_seen(
                                *old(self),
                                *final(self),
                                r,
                                src,
                                opt_vec(bb.elements.ssid),
                                channel,
                                spec_power(radio.antenna_signal),
                                doing_sweep,
                            ),
                            None => *final(self) == *old(self) && (r matches Ok(w) && w@.len() == 0),
                        },
                        _ => *final(self) == *old(self) && (r matches Ok(w) && w@.len() == 0),
                    }
                },
                _ => match (spec_src_addr(frame.header), spec_dest_addr(frame.header), spec_frame_weight(frame.body)) {
                    (Some(src), Some(dest), Some(w)) => spec_logged(*old(self), *final(self), r, src, dest, w as i64, minute),
                    _ => *final(self) == *old(self) && (r matches Ok(w) && w@.len() == 0),
                },
            },
    {
        match &frame.body {
            FrameBody::Beacon(bb) => {
                let src = match frame.header.src() {
                    Some(m) => m,
                    None => {
                        return Ok(Vec::new());
                    },
                };
                let freq = match radio.channel_freq {
                    Some(f) => f,
                    None => {
                        return Ok(Vec::new());
                    },
                };
                let channel = match get_mhz_to_channel(freq) {
                    Some(c) => c,
                    None => {
                        return Ok(Vec::new());
                    },
                };
                let power_level = match radio.antenna_signal {
                    Some(a) => Some(a as i32),
                    None => None,
                };
                self.observe_beacon(src, &bb.elements.ssid, channel, power_level, doing_sweep)
            },
            _ => {
                let weight = match frame_weight(&frame.body) {
                    Some(w) => w,
                    None => {
                        return Ok(Vec::new());
                    },
                };
                match (frame.header.src(), frame.header.dest()) {
                    (Some(src), Some(dest)) => self.log_data_frame(src, dest, weight, minute),
                    _ => Ok(Vec::new()),
                }
            },
        }
    }
}

/// The signal strength as stored.
pub open spec fn spec_power(signal: Option<i8>) -> Option<i32> {
    match signal {
        Some(a) => Some(a as i32),
        None => None,
    }
}

/// Copies optional bytes.
pub fn copy_bytes(o: &Option<Vec<u8>>) -> (r: Option<Vec<u8>>)
    ensures
        opt_vec(r) == opt_vec(*o),
{
    match o {
        Some(v) => Some(v.clone()),
        None => None,
    }
}

/// Equal in every field, the ssid compared by its bytes.
pub open spec fn same_station(a: Station, b: Station) -> bool {
    &&& a.id == b.id
    &&& a.mac_address == b.mac_address
    &&& opt_vec(a.ssid) == opt_vec(b.ssid)
    &&& a.channel == b.channel
    &&& a.power_level == b.power_level
    &&& a.nickname == b.nickname
    &&& a.description == b.description
    &&& a.watch == b.watch
}

/// What a beacon from `src` on `channel` does to the catalog: see
/// `Catalog::observe_beacon`.
pub open spec fn spec_beacon_seen(
    before: Catalog,
    after: Catalog,
    r: Result<Vec<Write>, StoreError>,
    src: MacAddress,
    ssid: Option<Seq<u8>>,
    channel: i32,
    power_level: Option<i32>,
    doing_sweep: bool,
) -> bool {
    &&& after.wf()
    &&& after.devices == before.devices
    &&& after.next_device_id == before.next_device_id
    &&& after.links == before.links
    &&& after.data == before.data
    &&& match spec_station_index(before.stations@, src) {
        Some(i) => if doing_sweep {
            let o = before.stations@[i];
            &&& r matches Ok(w) && w@.len() == 1 && (w@[0] matches Write::UpdateStation {
                id: wid,
                ssid: wssid,
                channel: wchannel,
                power_level: wpower,
            } && wid == o.id && opt_vec(wssid) == ssid && wchannel == channel && wpower == power_level)
            &&& after.stations@.len() == before.stations@.len()
            &&& after.next_station_id == before.next_station_id
            &&& forall|j: int| 0 <= j < before.stations@.len() && j != i ==> after.stations@[j] == before.stations@[j]
            &&& opt_vec(after.stations@[i].ssid) == ssid
            &&& after.stations@[i].channel == channel
            &&& after.stations@[i].power_level == power_level
            &&& after.stations@[i].id == o.id
            &&& after.stations@[i].mac_address == o.mac_address
            &&& after.stations@[i].watch == o.watch
            &&& after.stations@[i].nickname == o.nickname
            &&& after.stations@[i].description == o.description
        } else {
            after == before && (r matches Ok(w) && w@.len() == 0)
        },
        None => if before.next_station_id == i32::MAX {
            after == before && r == Err::<Vec<Write>, StoreError>(StoreError::IdsExhausted)
        } else {
            let n = before.stations@.len() as int;
            let s = after.stations@[n];
            &&& r matches Ok(w) && w@.len() == 1 && (w@[0] matches Write::InsertStation(ws) && same_station(ws, s))
            &&& after.stations@.len() == n + 1
            &&& after.stations@.subrange(0, n) == before.stations@
            &&& after.next_station_id == before.next_station_id + 1
            &&& s.id == before.next_station_id
            &&& s.mac_address == src
            &&& opt_vec(s.ssid) == ssid
            &&& s.channel == channel
            &&& s.power_level == power_level
            &&& s.nickname.is_none()
            &&& s.description.is_none()
            &&& !s.watch
        },
    }
}

/// Two data exchanges in the same minute between a watched station and a
/// watched, known device (either direction each) leave a single traffic row
/// for the pair and minute holding the sum of both byte counts, one link,
/// and the devices as they were.
pub proof fn lemma_exchanges_accumulate(
    c0: Catalog,
    c1: Catalog,
    c2: Catalog,
    r1: Result<Vec<Write>, StoreError>,
    r2: Result<Vec<Write>, StoreError>,
    src1: MacAddress,
    dest1: MacAddress,
    src2: MacAddress,
    dest2: MacAddress,
    dm: MacAddress,
    si: int,
    di: int,
    b1: i64,
    b2: i64,
    minute: i64,
)
    requires
        c0.wf(),
        spec_roles(c0.stations@, src1, dest1) == Some((si, dm)),
        spec_roles(c0.stations@, src2, dest2) == Some((si, dm)),
        spec_is_real_device(dm@),
        spec_device_index(c0.devices@, dm) == Some(di),
        c0.stations@[si].watch,
        c0.devices@[di].watch,
        spec_key_index(c0.data@, (minute, c0.devices@[di].id, c0.stations@[si].id)).is_none(),
        i64::MIN <= b1 + b2 <= i64::MAX,
        spec_logged(c0, c1, r1, src1, dest1, b1, minute),
        spec_logged(c1, c2, r2, src2, dest2, b2, minute),
    ensures
        r1.is_ok(),
        r2.is_ok(),
        c2.data@ == c0.data@.push(spec_row(c0.stations@[si], c0.devices@[di], (b1 + b2) as i64, minute)),
        c2.links@ == spec_link_insert(c0.links@, spec_link(c0.stations@[si], c0.devices@[di])),
        c2.devices == c0.devices,
{
    let st = c0.stations@[si];
    let dev = c0.devices@[di];
    let row1 = spec_row(st, dev, b1, minute);
    let row2 = spec_row(st, dev, b2, minute);
    lemma_data_accumulates(c0.data@, row1, row2);
    assert(spec_upsert(c0.data@, row1) == c0.data@.push(row1));
    assert(c1.data@ == c0.data@.push(row1));
    assert(c1.devices == c0.devices);
    assert(with_more(row1, b2) == spec_row(st, dev, (b1 + b2) as i64, minute));
    let link = spec_link(st, dev);
    assert(link_of(row1) == link);
    let l1 = spec_link_insert(c0.links@, link);
    assert(l1.contains(link)) by {
        if !c0.links@.contains(link) {
            assert(l1[c0.links@.len() as int] == link);
        }
    }
    assert(spec_link_insert(l1, link) == l1);
}

} // verus!
