use wifitify::frame_control::{DecodeError, FrameControl, FrameSubType, FrameType, flag_is_set};

fn flag_for_bit(bit: u8, frame_control: &FrameControl) -> bool {
    match bit {
        0 => frame_control.to_ds,
        1 => frame_control.from_ds,
        2 => frame_control.more_frag,
        3 => frame_control.retry,
        4 => frame_control.pwr_mgmt,
        5 => frame_control.more_data,
        6 => frame_control.wep,
        7 => frame_control.order,
        _ => panic!("Unhandled bit {}", bit),
    }
}

/// Set each flag once and ensure that only that bit is set.
#[test]
fn test_flags() {
    for bit in 0..7 {
        let second_byte = 0b0000_0001 << bit;
        let bytes = [0b0000_0000, second_byte];
        let frame_control = FrameControl::from_bytes(&bytes).unwrap();

        for check_bit in 0..7 {
            if bit == check_bit {
                assert!(flag_for_bit(check_bit, &frame_control));
            } else {
                assert!(!flag_for_bit(check_bit, &frame_control));
            }
        }
    }
}

#[test]
fn beacon_frame_control() {
    let fc = FrameControl::from_bytes(&[0b1000_0000, 0]).unwrap();
    assert_eq!(fc.frame_type, FrameType::Management);
    assert_eq!(fc.frame_subtype, FrameSubType::Beacon);
}

#[test]
fn subtypes_by_type() {
    assert_eq!(FrameControl::from_bytes(&[0xc4, 0]).unwrap().frame_subtype, FrameSubType::CTS);
    assert_eq!(FrameControl::from_bytes(&[0x94, 0]).unwrap().frame_subtype, FrameSubType::BlockAck);
    assert_eq!(FrameControl::from_bytes(&[0x88, 0]).unwrap().frame_subtype, FrameSubType::QoS);
    assert_eq!(FrameControl::from_bytes(&[0x08, 0]).unwrap().frame_subtype, FrameSubType::Data);
    assert_eq!(FrameControl::from_bytes(&[0x60, 0]).unwrap().frame_subtype, FrameSubType::UnHandled);
    assert_eq!(FrameControl::from_bytes(&[0x0c, 0]).unwrap().frame_type, FrameType::Unknown);
}

#[test]
fn unsupported_protocol_version() {
    assert_eq!(FrameControl::from_bytes(&[0x81, 0]).unwrap_err(), DecodeError::UnsupportedProtocol);
    assert_eq!(FrameControl::from_bytes(&[0x80]).unwrap_err(), DecodeError::Incomplete);
}

#[test]
fn flag_bits() {
    assert!(flag_is_set(0b1000_0000, 7));
    assert!(!flag_is_set(0b1000_0000, 6));
    assert!(flag_is_set(1, 0));
}
