use wifitify::bridge::{retry_connection, DropCounter, WARNING_INTERVAL};

#[test]
fn three_connection_attempts() {
    assert!(retry_connection(1));
    assert!(retry_connection(2));
    assert!(!retry_connection(3));
}

#[test]
fn drop_warnings_are_paced() {
    let mut drops = DropCounter::new();
    assert_eq!(drops.record_drop(1_000), Some(1));
    assert_eq!(drops.record_drop(1_001), None);
    assert_eq!(drops.record_drop(1_002), None);
    assert_eq!(drops.record_drop(1_000 + WARNING_INTERVAL - 1), None);
    assert_eq!(drops.record_drop(1_000 + WARNING_INTERVAL), Some(4));
    assert_eq!(drops.dropped, 0);
    assert_eq!(drops.last_warning, Some(1_000 + WARNING_INTERVAL));
}
