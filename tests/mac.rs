use wifitify::mac::{FrameAddresses, MACField, MacAddress};

#[test]
fn mac_text_is_lower_hex() {
    let mac = MacAddress([0xaa, 0xbb, 0xcc, 0xdd, 0xee, 0x01]);
    assert_eq!(mac.to_string(), "aa:bb:cc:dd:ee:01");
    assert_eq!(MacAddress([0, 1, 2, 3, 4, 0x0f]).to_string(), "00:01:02:03:04:0f");
}

#[test]
fn broadcast_and_zero_are_no_devices() {
    let broadcast = MacAddress([0xff; 6]);
    assert!(broadcast.is_broadcast());
    assert!(!broadcast.is_real_device());
    assert!(!MacAddress([0; 6]).is_real_device());
    assert!(!MacAddress([0x01, 0x00, 0x5e, 0, 0, 1]).is_real_device());
    assert!(MacAddress([0xaa, 0xbb, 0xcc, 0xdd, 0xee, 0x02]).is_real_device());
}

#[test]
fn mac_from_slice() {
    let mac = MacAddress::from_slice(&[1, 2, 3, 4, 5, 6, 7]);
    assert_eq!(mac, MacAddress([1, 2, 3, 4, 5, 6]));
    assert!(mac.same_as(&MacAddress([1, 2, 3, 4, 5, 6])));
    assert!(!mac.same_as(&MacAddress([1, 2, 3, 4, 5, 7])));
}

#[test]
fn text_address_fields() {
    assert_eq!(MACField::from_slice(&[0xde, 0xad, 0xbe, 0xef, 0, 1]).addr, "de:ad:be:ef:00:01");
    let mut block = Vec::new();
    for i in 0..26u8 {
        block.push(i);
    }
    let a = FrameAddresses::from_bytes(&block).unwrap();
    assert_eq!(a.addr1.addr, "00:01:02:03:04:05");
    assert_eq!(a.addr2.addr, "06:07:08:09:0a:0b");
    assert_eq!(a.addr3.addr, "0c:0d:0e:0f:10:11");
    assert_eq!(a.addr4.addr, "14:15:16:17:18:19");
    assert!(FrameAddresses::from_bytes(&block[..25]).is_none());
}

#[test]
fn mac_from_text() {
    assert_eq!(MacAddress::from_text(b"aa:bb:cc:dd:ee:01"), Some(MacAddress([0xaa, 0xbb, 0xcc, 0xdd, 0xee, 0x01])));
    assert_eq!(MacAddress::from_text(b"AA:BB:CC:DD:EE:0F"), Some(MacAddress([0xaa, 0xbb, 0xcc, 0xdd, 0xee, 0x0f])));
    assert_eq!(MacAddress::from_text(b"aa:bb:cc:dd:ee"), None);
    assert_eq!(MacAddress::from_text(b"aa-bb-cc-dd-ee-01"), None);
    assert_eq!(MacAddress::from_text(b"ag:bb:cc:dd:ee:01"), None);
    let mac = MacAddress([0x12, 0x34, 0x56, 0x78, 0x9a, 0xbc]);
    assert_eq!(MacAddress::from_text(mac.to_string().as_bytes()), Some(mac));
}
