use logibar::hid::protocol::SHORT_REPORT_ID;
use logibar::hid::receiver::{
    parse_connection, NOTIF_BATTERY_STATUS, NOTIF_SOFTWARE_PRESENT, NOTIF_WIRELESS,
};

#[test]
fn connection_link_up_and_down() {
    // Real C547 capture: `10 01 41 11 32 99 40` — slot 1, link up, WPID 0x4099.
    let up = [SHORT_REPORT_ID, 0x01, 0x41, 0x11, 0x32, 0x99, 0x40];
    let n = parse_connection(&up).expect("0x41 should parse");
    assert_eq!(n.device_index, 0x01);
    assert!(n.link_established);
    assert_eq!(n.wpid, 0x4099);

    // Link gone: flags bit 6 (0x40) set.
    let down = [SHORT_REPORT_ID, 0x03, 0x41, 0x11, 0x72, 0x99, 0x40];
    let n = parse_connection(&down).expect("0x41 should parse");
    assert_eq!(n.device_index, 0x03);
    assert!(!n.link_established);
}

#[test]
fn non_connection_report_is_none() {
    let battery_event = [0x11, 0x01, 0x06, 0x00, 50, 0, 0];
    assert!(parse_connection(&battery_event).is_none());
}

#[test]
fn notification_flag_bytes() {
    // wireless | software-present | battery = 0x100900, big-endian.
    let flags = NOTIF_WIRELESS | NOTIF_SOFTWARE_PRESENT | NOTIF_BATTERY_STATUS;
    let params = [(flags >> 16) as u8, (flags >> 8) as u8, flags as u8];
    assert_eq!(params, [0x10, 0x09, 0x00]);
}
