use wifitify::catalog::{Catalog, StoreError};
use wifitify::elements::encode_ssid;
use wifitify::frame::Frame;
use wifitify::mac::MacAddress;
use wifitify::models::{Data, Device, DeviceStation, Station, minute_of};
use wifitify::observe::Write;
use wifitify::radio::RadioInfo;

const S: [u8; 6] = [0xaa, 0xbb, 0xcc, 0xdd, 0xee, 0x01];
const D: [u8; 6] = [0x00, 0x11, 0x22, 0x33, 0x44, 0x55];

fn radio(freq: u16) -> RadioInfo {
    RadioInfo { header_length: 13, channel_freq: Some(freq), antenna_signal: Some(-42) }
}

fn beacon_from(src: [u8; 6], ssid: &[u8]) -> Vec<u8> {
    let mut v = vec![0x80, 0x00, 0, 0];
    v.extend_from_slice(&[0xff; 6]);
    v.extend_from_slice(&src);
    v.extend_from_slice(&src);
    v.extend_from_slice(&[0, 0]);
    v.extend_from_slice(&[0; 8]);
    v.extend_from_slice(&[0x64, 0, 0x11, 0x04]);
    v.extend_from_slice(&encode_ssid(ssid));
    v
}

/// A QoS data frame from the device to the station (to_ds set).
fn qos_data(station: [u8; 6], device: [u8; 6], payload: usize) -> Vec<u8> {
    let mut v = vec![0x88, 0x01, 0, 0];
    v.extend_from_slice(&station);
    v.extend_from_slice(&device);
    v.extend_from_slice(&station);
    v.extend_from_slice(&[0, 0]);
    v.extend_from_slice(&[0, 0]);
    v.extend(std::iter::repeat(7u8).take(payload));
    v
}

fn watched_station(catalog: &mut Catalog, mac: [u8; 6], channel: i32) -> i32 {
    let id = catalog
        .persist_station(Station {
            id: 0,
            mac_address: MacAddress(mac),
            ssid: None,
            channel,
            power_level: None,
            nickname: None,
            description: None,
            watch: true,
        })
        .unwrap();
    let last = catalog.stations.len() - 1;
    catalog.stations[last].watch = true;
    id
}

#[test]
fn first_beacon_creates_station() {
    let mut catalog = Catalog::new();
    let frame = Frame::from_bytes(&beacon_from(S, b"HomeNet")).unwrap();
    let writes = catalog.handle_frame(&frame, &radio(2437), false, 0).unwrap();
    assert_eq!(catalog.stations.len(), 1);
    let st = &catalog.stations[0];
    assert_eq!(st.mac_address, MacAddress(S));
    assert_eq!(st.channel, 6);
    assert_eq!(st.ssid, Some(b"HomeNet".to_vec()));
    assert_eq!(st.power_level, Some(-42));
    assert!(!st.watch);
    assert_eq!(writes.len(), 1);
    assert!(matches!(&writes[0], Write::InsertStation(s) if s.channel == 6 && !s.watch));
}

#[test]
fn unknown_frequency_drops_beacon() {
    let mut catalog = Catalog::new();
    let frame = Frame::from_bytes(&beacon_from(S, b"HomeNet")).unwrap();
    let writes = catalog.handle_frame(&frame, &radio(2400), false, 0).unwrap();
    assert!(writes.is_empty());
    assert!(catalog.stations.is_empty());
}

#[test]
fn sweep_updates_metadata() {
    let mut catalog = Catalog::new();
    watched_station(&mut catalog, S, 1);
    let frame = Frame::from_bytes(&beacon_from(S, b"Renamed")).unwrap();
    let writes = catalog.handle_frame(&frame, &radio(2462), false, 0).unwrap();
    assert!(writes.is_empty());
    assert_eq!(catalog.stations[0].channel, 1);
    let writes = catalog.handle_frame(&frame, &radio(2462), true, 0).unwrap();
    assert_eq!(writes.len(), 1);
    assert_eq!(catalog.stations.len(), 1);
    assert_eq!(catalog.stations[0].channel, 11);
    assert_eq!(catalog.stations[0].ssid, Some(b"Renamed".to_vec()));
    assert!(catalog.stations[0].watch);
}

#[test]
fn data_frames_accumulate() {
    let mut catalog = Catalog::new();
    let station_id = watched_station(&mut catalog, S, 6);
    catalog
        .persist_device(Device { id: 0, mac_address: MacAddress(D), nickname: None, description: None, watch: true })
        .unwrap();
    let device_id = catalog.devices[0].id;
    let minute = minute_of(1_700_000_030_000);
    for payload in [100usize, 150] {
        let frame = Frame::from_bytes(&qos_data(S, D, payload)).unwrap();
        catalog.handle_frame(&frame, &radio(2437), false, minute).unwrap();
    }
    assert_eq!(
        catalog.data,
        vec![Data { time: minute, device: device_id, station: station_id, bytes_per_minute: 250 }]
    );
    assert_eq!(catalog.links, vec![DeviceStation { device: device_id, station: station_id }]);
}

#[test]
fn new_device_is_registered_and_counted() {
    let mut catalog = Catalog::new();
    watched_station(&mut catalog, S, 6);
    let frame = Frame::from_bytes(&qos_data(S, D, 64)).unwrap();
    let writes = catalog.handle_frame(&frame, &radio(2437), false, 5).unwrap();
    assert_eq!(catalog.devices.len(), 1);
    assert!(catalog.devices[0].watch);
    assert_eq!(writes.len(), 3);
    assert!(matches!(&writes[0], Write::InsertDevice(d) if d.mac_address == MacAddress(D)));
    assert!(matches!(&writes[1], Write::AddData(d) if d.bytes_per_minute == 64 && d.time == 5));
    assert!(matches!(&writes[2], Write::InsertLink(_)));
}

#[test]
fn broadcast_partner_is_ignored() {
    let mut catalog = Catalog::new();
    watched_station(&mut catalog, S, 6);
    let frame = Frame::from_bytes(&qos_data(S, [0xff; 6], 80)).unwrap();
    let writes = catalog.handle_frame(&frame, &radio(2437), false, 0).unwrap();
    assert!(writes.is_empty());
    assert!(catalog.devices.is_empty());
    assert!(catalog.data.is_empty());
}

#[test]
fn unwatched_station_registers_device_only() {
    let mut catalog = Catalog::new();
    watched_station(&mut catalog, S, 6);
    catalog.stations[0].watch = false;
    let frame = Frame::from_bytes(&qos_data(S, D, 80)).unwrap();
    let writes = catalog.handle_frame(&frame, &radio(2437), false, 0).unwrap();
    assert_eq!(writes.len(), 1);
    assert_eq!(catalog.devices.len(), 1);
    assert!(catalog.data.is_empty());
}

#[test]
fn data_rows_add_in_either_order() {
    let row = |b: i64| Data { time: 3, device: 1, station: 2, bytes_per_minute: b };
    let mut first = Catalog::new();
    first.persist_data(row(10)).unwrap();
    first.persist_data(row(32)).unwrap();
    let mut second = Catalog::new();
    second.persist_data(row(32)).unwrap();
    second.persist_data(row(10)).unwrap();
    assert_eq!(first.data, vec![row(42)]);
    assert_eq!(second.data, vec![row(42)]);
    second.persist_data(Data { time: 4, ..row(1) }).unwrap();
    assert_eq!(second.data.len(), 2);
}

#[test]
fn data_counter_overflow_is_refused() {
    let mut catalog = Catalog::new();
    let row = Data { time: 0, device: 1, station: 1, bytes_per_minute: i64::MAX };
    catalog.persist_data(row).unwrap();
    assert_eq!(catalog.persist_data(Data { bytes_per_minute: 1, ..row }), Err(StoreError::Overflow));
    assert_eq!(catalog.data, vec![row]);
}

#[test]
fn links_are_stored_once() {
    let mut catalog = Catalog::new();
    let link = DeviceStation { device: 4, station: 9 };
    for _ in 0..5 {
        catalog.persist_link(link);
    }
    assert_eq!(catalog.links, vec![link]);
    assert!(catalog.link_exists(9, 4));
    assert!(!catalog.link_exists(4, 9));
}

#[test]
fn duplicate_station_mac_is_refused() {
    let mut catalog = Catalog::new();
    watched_station(&mut catalog, S, 6);
    let again = Station {
        id: 0,
        mac_address: MacAddress(S),
        ssid: None,
        channel: 1,
        power_level: None,
        nickname: None,
        description: None,
        watch: false,
    };
    assert_eq!(catalog.persist_station(again), Err(StoreError::DuplicateMac));
    assert_eq!(catalog.update_metadata(77, None, 1, None), Err(StoreError::UnknownStation));
}

#[test]
fn minutes_round_down() {
    assert_eq!(minute_of(0), 0);
    assert_eq!(minute_of(59_999), 0);
    assert_eq!(minute_of(60_000), 1);
    assert_eq!(minute_of(-1), -1);
}

#[test]
fn known_rows_keep_their_ids() {
    let mut catalog = Catalog::new();
    let stored = Station {
        id: 41,
        mac_address: MacAddress(S),
        ssid: None,
        channel: 6,
        power_level: None,
        nickname: Some("home".to_string()),
        description: None,
        watch: true,
    };
    catalog.add_known_station(stored).unwrap();
    assert_eq!(catalog.next_station_id, 42);
    let clash = Station {
        id: 41,
        mac_address: MacAddress(D),
        ssid: None,
        channel: 1,
        power_level: None,
        nickname: None,
        description: None,
        watch: false,
    };
    assert_eq!(catalog.add_known_station(clash), Err(StoreError::IdsExhausted));
    catalog
        .add_known_device(Device { id: 7, mac_address: MacAddress(D), nickname: None, description: None, watch: false })
        .unwrap();
    assert_eq!(catalog.next_device_id, 8);
    let frame = Frame::from_bytes(&qos_data(S, D, 10)).unwrap();
    let writes = catalog.handle_frame(&frame, &radio(2437), false, 0).unwrap();
    assert!(writes.is_empty());
    catalog.persist_data(Data { time: 0, device: 7, station: 41, bytes_per_minute: 3 }).unwrap();
    catalog.clear_data();
    assert!(catalog.data.is_empty());
    assert_eq!(catalog.stations.len(), 1);
}

#[test]
fn exchange_between_two_stations_is_ignored() {
    let mut catalog = Catalog::new();
    watched_station(&mut catalog, S, 6);
    watched_station(&mut catalog, [0xff; 6], 6);
    let frame = Frame::from_bytes(&qos_data(S, [0xff; 6], 80)).unwrap();
    assert!(catalog.handle_frame(&frame, &radio(2437), false, 0).unwrap().is_empty());
    let frame = Frame::from_bytes(&qos_data([0xff; 6], S, 80)).unwrap();
    assert!(catalog.handle_frame(&frame, &radio(2437), false, 0).unwrap().is_empty());
    assert!(catalog.devices.is_empty());
    assert!(catalog.data.is_empty());
}

#[test]
fn writes_of_a_known_pair() {
    let mut catalog = Catalog::new();
    let station_id = watched_station(&mut catalog, S, 6);
    let frame = Frame::from_bytes(&qos_data(S, D, 30)).unwrap();
    catalog.handle_frame(&frame, &radio(2437), false, 9).unwrap();
    let device_id = catalog.devices[0].id;
    let writes = catalog.handle_frame(&frame, &radio(2437), false, 9).unwrap();
    assert_eq!(writes.len(), 1);
    assert!(matches!(&writes[0], Write::AddData(d) if *d == Data { time: 9, device: device_id, station: station_id, bytes_per_minute: 30 }));
    assert_eq!(catalog.data[0].bytes_per_minute, 60);
}
