use wifitify::elements::{encode_ssid, parse_elements};
use wifitify::frame::{BlockAckInfo, Frame, FrameBody};
use wifitify::frame_control::{DecodeError, FrameSubType};
use wifitify::header::Header;
use wifitify::mac::MacAddress;
use wifitify::radio::{CaptureError, handle_packet};

const A1: [u8; 6] = [0xff, 0xff, 0xff, 0xff, 0xff, 0xff];
const A2: [u8; 6] = [0xaa, 0xbb, 0xcc, 0xdd, 0xee, 0x01];
const A3: [u8; 6] = [0xaa, 0xbb, 0xcc, 0xdd, 0xee, 0x02];
const A4: [u8; 6] = [0x10, 0x20, 0x30, 0x40, 0x50, 0x60];

fn header(first: u8, flags: u8, addresses: usize) -> Vec<u8> {
    let mut v = vec![first, flags, 0x3a, 0x01];
    v.extend_from_slice(&A1);
    if addresses >= 2 {
        v.extend_from_slice(&A2);
    }
    if addresses >= 3 {
        v.extend_from_slice(&A3);
        v.extend_from_slice(&[0x10, 0x00]);
    }
    if addresses >= 4 {
        v.extend_from_slice(&A4);
    }
    v
}

fn beacon(ssid: &[u8]) -> Vec<u8> {
    let mut v = header(0x80, 0, 3);
    v.extend_from_slice(&[1, 2, 3, 4, 5, 6, 7, 8, 0x64, 0x00, 0x11, 0x04]);
    v.extend_from_slice(&encode_ssid(ssid));
    v.extend_from_slice(&[1, 4, 0x82, 0x84, 0x8b, 0x96]);
    v.extend_from_slice(&[3, 1, 6]);
    v
}

#[test]
fn beacon_addresses_and_body() {
    let frame = Frame::from_bytes(&beacon(b"HomeNet")).unwrap();
    assert_eq!(frame.header.frame_control.frame_subtype, FrameSubType::Beacon);
    assert_eq!(frame.header.src(), Some(MacAddress(A2)));
    assert_eq!(frame.header.dest(), Some(MacAddress(A1)));
    assert_eq!(frame.header.bssid(), Some(MacAddress(A3)));
    match frame.body {
        FrameBody::Beacon(b) => {
            assert_eq!(b.timestamp, 0x0807060504030201);
            assert_eq!(b.interval, 100);
            assert_eq!(b.cap_info, 0x0411);
            assert_eq!(b.elements.ssid, Some(b"HomeNet".to_vec()));
            assert_eq!(b.elements.supported_rates, Some(vec![0x82, 0x84, 0x8b, 0x96]));
            assert_eq!(b.elements.current_channel, Some(6));
            assert_eq!(b.elements.country, None);
        }
        other => panic!("not a beacon: {:?}", other),
    }
}

#[test]
fn wds_data_frame_roles() {
    let mut bytes = header(0x08, 0b11, 4);
    bytes.extend_from_slice(&[9; 40]);
    let frame = Frame::from_bytes(&bytes).unwrap();
    assert_eq!(frame.header.src(), Some(MacAddress(A4)));
    assert_eq!(frame.header.dest(), Some(MacAddress(A3)));
    assert_eq!(frame.header.bssid(), None);
    match frame.body {
        FrameBody::Data { payload_len } => assert_eq!(payload_len, 40),
        other => panic!("not data: {:?}", other),
    }
}

#[test]
fn from_ds_and_to_ds_roles() {
    let frame = Frame::from_bytes(&header(0x08, 0b10, 3)).unwrap();
    assert_eq!(frame.header.src(), Some(MacAddress(A3)));
    assert_eq!(frame.header.dest(), Some(MacAddress(A1)));
    assert_eq!(frame.header.bssid(), Some(MacAddress(A2)));
    let frame = Frame::from_bytes(&header(0x08, 0b01, 3)).unwrap();
    assert_eq!(frame.header.src(), Some(MacAddress(A2)));
    assert_eq!(frame.header.dest(), Some(MacAddress(A3)));
    assert_eq!(frame.header.bssid(), Some(MacAddress(A1)));
}

#[test]
fn cts_has_only_a_receiver() {
    let bytes = header(0xc4, 0, 1);
    assert_eq!(bytes.len(), 10);
    let frame = Frame::from_bytes(&bytes).unwrap();
    assert_eq!(frame.header.src(), None);
    assert_eq!(frame.header.dest(), Some(MacAddress(A1)));
    assert_eq!(frame.header.bssid(), None);
    assert!(frame.header.address_2.is_none());
}

#[test]
fn rts_has_two_addresses() {
    let (h, off) = Header::from_bytes(&header(0xb4, 0, 2)).unwrap();
    assert_eq!(off, 16);
    assert_eq!(h.address_2, Some(MacAddress(A2)));
    assert_eq!(h.address_3, None);
    assert_eq!(h.src(), Some(MacAddress(A2)));
}

#[test]
fn ssid_round_trip() {
    for len in 0..=32usize {
        let ssid: Vec<u8> = (0..len).map(|i| (i * 7 + 1) as u8).collect();
        let encoded = encode_ssid(&ssid);
        assert_eq!(encoded.len(), len + 2);
        let elements = parse_elements(&encoded, 0).unwrap();
        assert_eq!(elements.ssid, Some(ssid));
    }
}

#[test]
fn element_overrun_fails() {
    let mut bytes = beacon(b"net");
    bytes.extend_from_slice(&[7, 10, b'D', b'E']);
    assert_eq!(Frame::from_bytes(&bytes).unwrap_err(), DecodeError::Failure);
    assert_eq!(parse_elements(&[0], 0).unwrap_err(), DecodeError::Failure);
}

#[test]
fn truncated_frames_are_incomplete() {
    assert_eq!(Frame::from_bytes(&[0x80]).unwrap_err(), DecodeError::Incomplete);
    assert_eq!(Frame::from_bytes(&header(0x80, 0, 2)).unwrap_err(), DecodeError::Incomplete);
    let mut short_beacon = header(0x80, 0, 3);
    short_beacon.extend_from_slice(&[0; 11]);
    assert_eq!(Frame::from_bytes(&short_beacon).unwrap_err(), DecodeError::Incomplete);
    let qos = header(0x88, 0, 3);
    assert_eq!(Frame::from_bytes(&qos).unwrap_err(), DecodeError::Incomplete);
    assert_eq!(Frame::from_bytes(&[0x81, 0, 0, 0]).unwrap_err(), DecodeError::UnsupportedProtocol);
}

#[test]
fn qos_payload_excludes_qos_control() {
    let mut bytes = header(0x88, 0, 3);
    bytes.extend_from_slice(&[0, 0]);
    bytes.extend_from_slice(&[5; 100]);
    match Frame::from_bytes(&bytes).unwrap().body {
        FrameBody::QosData { payload_len } => assert_eq!(payload_len, 100),
        other => panic!("not qos data: {:?}", other),
    }
}

#[test]
fn block_ack_weights() {
    let mut basic = header(0x94, 0, 2);
    basic.extend_from_slice(&[0x00, 0x00, 0x10, 0x00]);
    match Frame::from_bytes(&basic).unwrap().body {
        FrameBody::BlockAck(info) => {
            assert_eq!(info, BlockAckInfo::Basic);
            assert_eq!(info.weight(), 100);
        }
        other => panic!("not a block ack: {:?}", other),
    }
    let mut compressed = header(0x94, 0, 2);
    compressed.extend_from_slice(&[0x04, 0x00, 0x10, 0x00, 0xff, 0x01, 0, 0, 0, 0, 0, 0x80]);
    match Frame::from_bytes(&compressed).unwrap().body {
        FrameBody::BlockAck(info) => {
            assert_eq!(info, BlockAckInfo::Compressed(10));
            assert_eq!(info.weight(), 5000);
        }
        other => panic!("not a block ack: {:?}", other),
    }
}

#[test]
fn probe_request_and_association_bodies() {
    let mut probe = header(0x40, 0, 3);
    probe.extend_from_slice(&encode_ssid(b"x"));
    match Frame::from_bytes(&probe).unwrap().body {
        FrameBody::ProbeRequest(e) => assert_eq!(e.ssid, Some(b"x".to_vec())),
        other => panic!("not a probe request: {:?}", other),
    }
    let mut assoc = header(0x00, 0, 3);
    assoc.extend_from_slice(&[0x31, 0x04, 0x0a, 0x00]);
    assoc.extend_from_slice(&encode_ssid(b"ap"));
    match Frame::from_bytes(&assoc).unwrap().body {
        FrameBody::AssociationRequest { cap_info, interval, elements } => {
            assert_eq!(cap_info, 0x0431);
            assert_eq!(interval, 10);
            assert_eq!(elements.ssid, Some(b"ap".to_vec()));
        }
        other => panic!("not an association request: {:?}", other),
    }
}

pub fn radiotap_prefix(freq: u16, signal: i8) -> Vec<u8> {
    let f = freq.to_le_bytes();
    vec![0, 0, 13, 0, 0x28, 0, 0, 0, f[0], f[1], 0xa0, 0x00, signal as u8]
}

#[test]
fn capture_with_radiotap_prefix() {
    let mut packet = radiotap_prefix(2437, -60);
    packet.extend_from_slice(&beacon(b"HomeNet"));
    let (frame, info) = handle_packet(&packet).unwrap();
    assert_eq!(info.header_length, 13);
    assert_eq!(info.channel_freq, Some(2437));
    assert_eq!(info.antenna_signal, Some(-60));
    assert_eq!(frame.header.src(), Some(MacAddress(A2)));
}

#[test]
fn capture_errors() {
    assert_eq!(handle_packet(&[1, 0, 8, 0, 0, 0, 0, 0]).unwrap_err(), CaptureError::Radiotap);
    assert_eq!(handle_packet(&[0, 0, 8, 0, 0, 0, 0, 0x40]).unwrap_err(), CaptureError::UnsupportedPresence);
    let mut chained = vec![0, 0, 40, 0];
    for _ in 0..8 {
        chained.extend_from_slice(&[0, 0, 0, 0x80]);
    }
    chained.extend_from_slice(&[1, 0, 0, 0]);
    assert_eq!(handle_packet(&chained).unwrap_err(), CaptureError::UnsupportedPresence);
    let mut packet = radiotap_prefix(2437, -60);
    packet.push(0x80);
    assert_eq!(handle_packet(&packet).unwrap_err(), CaptureError::Frame(DecodeError::Incomplete));
}
