use wifitify::channels::{ChannelListError, get_mhz_to_channel, parse_supported_channels};

#[test]
fn frequency_table() {
    assert_eq!(get_mhz_to_channel(2412), Some(1));
    assert_eq!(get_mhz_to_channel(2437), Some(6));
    assert_eq!(get_mhz_to_channel(2462), Some(11));
    assert_eq!(get_mhz_to_channel(2484), Some(14));
    assert_eq!(get_mhz_to_channel(5180), Some(36));
    assert_eq!(get_mhz_to_channel(5340), Some(68));
    assert_eq!(get_mhz_to_channel(5885), Some(177));
    assert_eq!(get_mhz_to_channel(5650), None);
    assert_eq!(get_mhz_to_channel(2413), None);
    assert_eq!(get_mhz_to_channel(0), None);
}

#[test]
fn channel_list_lines() {
    let output = "wlan0     32 channels in total; available frequencies :\n          Channel 01 : 2.412 GHz\n          Channel 06 : 2.437 GHz\n          Channel 10 : 2.457 GHz\n          Channel 100 : 5.5 GHz\n          Current Frequency:2.412 GHz (Channel 1)\n";
    assert_eq!(parse_supported_channels(output.as_bytes()).unwrap(), vec![1, 6, 10, 100]);
}

#[test]
fn channel_list_empty() {
    assert_eq!(parse_supported_channels(b"").unwrap(), Vec::<i32>::new());
    assert_eq!(parse_supported_channels(b"nothing here\n").unwrap(), Vec::<i32>::new());
}

#[test]
fn channel_list_errors() {
    assert_eq!(parse_supported_channels(b"  Channel\n").unwrap_err(), ChannelListError::MissingNumber);
    assert_eq!(parse_supported_channels(b"Channel x1 : 2.4 GHz").unwrap_err(), ChannelListError::BadNumber);
    assert_eq!(parse_supported_channels(b"Channel 00").unwrap_err(), ChannelListError::BadNumber);
    assert_eq!(parse_supported_channels(b"Channel 99999999999").unwrap_err(), ChannelListError::BadNumber);
}
