use logibar::hid::client::DeviceEvent;
use logibar::hid::scanner::ReceiverPath;
use logibar::model::BatteryState;
use logibar::widget::{
    device_kind, id_of_hash, payload, receiver_id, short_id, widget_position, BatteryPayload,
};
use std::collections::hash_map::DefaultHasher;
use std::hash::{Hash, Hasher};

#[test]
fn ids_are_the_low_half_of_the_hash() {
    assert_eq!(id_of_hash(0), "00000000");
    assert_eq!(id_of_hash(0x1234_5678_9ABC_DEF0), "9abcdef0");
    assert_eq!(id_of_hash(u64::MAX), "ffffffff");
    for path in ["", "/dev/hidraw0", "\\\\?\\HID#VID_046D&PID_C547"] {
        let mut hasher = DefaultHasher::new();
        path.hash(&mut hasher);
        assert_eq!(short_id(path), format!("{:08x}", hasher.finish() as u32));
    }
    assert_ne!(short_id("/dev/hidraw0"), short_id("/dev/hidraw1"));
}

#[test]
fn receivers_are_identified_by_their_long_path() {
    let receiver = ReceiverPath {
        pid: 0xC547,
        long_path: b"/dev/hidraw0".to_vec(),
        short_path: Some(b"/dev/hidraw1".to_vec()),
    };
    assert_eq!(receiver_id(&receiver), short_id("/dev/hidraw0"));
    let odd = ReceiverPath { pid: 1, long_path: vec![0xFF], short_path: None };
    assert_eq!(receiver_id(&odd), short_id("\u{FFFD}"));
}

#[test]
fn kinds_are_told_by_names() {
    for name in ["MX Keys", "G715", "g915 TKL", "G815", "Wireless Keyboard"] {
        assert_eq!(device_kind(name), "keyboard");
    }
    for name in [
        "Wireless Mouse",
        "MX Master 3S",
        "MX Anywhere 2",
        "PRO X SUPERLIGHT 2",
        "PRO X Wireless",
        "Pro Wireless",
        "G Pro",
        "G502 X Plus",
        "G703",
        "G903",
    ] {
        assert_eq!(device_kind(name), "mouse");
    }
    assert_eq!(device_kind("Mouse and Keyboard"), "keyboard");
    assert_eq!(device_kind("ERGO M575"), "other");
    assert_eq!(device_kind(""), "other");
}

#[test]
fn events_become_payloads() {
    let state = BatteryState {
        device_key: "C547:1".to_string(),
        display_name: "G502 X Plus".to_string(),
        pid: 0xC547,
        device_index: 1,
        battery_percent: 80,
        is_charging: true,
    };
    assert_eq!(
        payload("0a0b0c0d", DeviceEvent::Update(state)),
        BatteryPayload {
            device_key: "0a0b0c0d:C547:1".to_string(),
            device_kind: "mouse".to_string(),
            name: "G502 X Plus".to_string(),
            percentage: Some(80),
            charging: true,
        }
    );
    assert_eq!(
        payload("0a0b0c0d", DeviceEvent::Gone("C547:1".to_string())),
        BatteryPayload {
            device_key: "0a0b0c0d:C547:1".to_string(),
            device_kind: "other".to_string(),
            name: String::new(),
            percentage: None,
            charging: false,
        }
    );
}

#[test]
fn the_widget_stands_in_the_lower_right_corner() {
    assert_eq!(widget_position(1920, 1080, 300, 200), (1600, 820));
    assert_eq!(widget_position(320, 260, 300, 200), (0, 0));
    assert_eq!(widget_position(100, 100, 300, 200), (0, 0));
    assert_eq!(widget_position(310, 250, 300, 200), (0, 0));
    assert_eq!(widget_position(u32::MAX, u32::MAX, 0, 0), (-21, -61));
}
