use logibar::hid::error::HidError;
use logibar::hid::scanner::{
    dedup_key, open_notifier, open_receiver, path_key, scan_receivers, serial_key, HidInterface,
    ReceiverPath,
};

fn interface(pid: u16, usage: u16, path: &str) -> HidInterface {
    HidInterface {
        vendor_id: 0x046D,
        product_id: pid,
        usage_page: 0xFF00,
        usage,
        interface_number: 2,
        path: path.as_bytes().to_vec(),
        serial: None,
        product: Some("USB Receiver".to_string()),
    }
}

fn windows(col: &str, inst: &str, number: &str) -> String {
    format!("\\\\?\\HID#VID_046D&PID_C547&MI_02&{col}#a&{inst}&0&{number}#{{4d1e55b2}}")
}

#[test]
fn collections_of_one_dongle_have_one_key() {
    let short = interface(0xC547, 1, &windows("Col01", "215d9e4d", "0000"));
    let long = interface(0xC547, 2, &windows("Col02", "215d9e4d", "0001"));
    assert_eq!(dedup_key(&short), "vid_046d&pid_c547&mi_02#a&215d9e4d&0");
    assert_eq!(dedup_key(&short), dedup_key(&long));
    for x in 3..=9 {
        let other = windows(&format!("Col0{x}"), "215d9e4d", &format!("000{x}"));
        assert_eq!(dedup_key(&interface(0xC547, 1, &other)), dedup_key(&short));
    }
}

#[test]
fn dongles_with_one_product_id_have_two_keys() {
    let one = interface(0xC547, 2, &windows("Col02", "215d9e4d", "0001"));
    let two = interface(0xC547, 2, &windows("Col02", "33333333", "0001"));
    assert_ne!(dedup_key(&one), dedup_key(&two));
}

#[test]
fn other_paths_are_keyed_by_serial_number() {
    let mut info = interface(0xC547, 2, "/dev/hidraw3");
    assert_eq!(dedup_key(&info), "c547|");
    info.serial = Some("AB12".to_string());
    assert_eq!(dedup_key(&info), "c547|AB12");
    assert_eq!(serial_key(0x00AB, &None), "00ab|");
    assert_eq!(path_key("/dev/hidraw3"), None);
    assert_eq!(path_key("a#b"), None);
    assert_eq!(path_key("a#b#c"), Some("b#c".to_string()));
    assert_eq!(path_key("a#X&Col01&Col02#c&d&e"), Some("x#c&d".to_string()));
    assert_eq!(path_key("a#x&co&col01l02#c"), Some("x#c".to_string()));
    assert_eq!(path_key("a#x&co&col02l01#c"), Some("x&col01#c".to_string()));
    assert_eq!(path_key("a#x&col00&col1&col0#c"), Some("x&col1&col0#c".to_string()));
}

#[test]
fn paths_that_are_no_text_still_have_a_key() {
    let mut info = interface(0xC547, 2, "");
    info.path = vec![b'A', b'#', 0xFF, b'#', b'c', b'&', b'0'];
    assert_eq!(dedup_key(&info), "\u{FFFD}#c");
}

#[test]
fn receivers_are_grouped_by_dongle() {
    let found = scan_receivers(&[
        interface(0xC547, 1, &windows("Col01", "1", "0000")),
        interface(0xC548, 2, &windows("Col02", "2", "0001")),
        interface(0xC547, 2, &windows("Col02", "1", "0001")),
        interface(0xC549, 1, &windows("Col01", "3", "0000")),
        interface(0xC547, 4, &windows("Col03", "1", "0002")),
    ]);
    assert_eq!(found.len(), 2);
    assert_eq!(found[0].pid, 0xC547);
    assert_eq!(found[0].long_path, windows("Col02", "1", "0001").into_bytes());
    assert_eq!(
        found[0].short_path,
        Some(windows("Col01", "1", "0000").into_bytes())
    );
    assert_eq!(found[1].pid, 0xC548);
    assert_eq!(found[1].short_path, None);
}

#[test]
fn other_interfaces_are_no_receivers() {
    let mut foreign = interface(0xC547, 2, "a#b#c");
    foreign.vendor_id = 0x045E;
    let mut keyboard = interface(0xC547, 2, "a#b#c");
    keyboard.usage_page = 0x0001;
    assert!(scan_receivers(&[foreign, keyboard]).is_empty());
    assert!(scan_receivers(&[]).is_empty());
}

#[test]
fn the_last_collection_of_a_dongle_counts() {
    let found = scan_receivers(&[
        interface(0xC547, 2, "x#b#c&0000"),
        interface(0xC548, 2, "y#b#c&0001"),
    ]);
    assert_eq!(found.len(), 1);
    assert_eq!(found[0].pid, 0xC547);
    assert_eq!(found[0].long_path, b"y#b#c&0001".to_vec());
}

#[test]
fn receivers_that_do_not_open_have_a_cause() {
    let mut receiver = ReceiverPath {
        pid: 0xC547,
        long_path: b"long".to_vec(),
        short_path: None,
    };
    assert_eq!(open_receiver(&receiver, true), Ok(()));
    assert_eq!(
        open_receiver(&receiver, false),
        Err(HidError::ReceiverUnavailable { pid: 0xC547 })
    );
    assert_eq!(
        open_notifier(&receiver, true),
        Err(HidError::NotifierMissing { pid: 0xC547 })
    );
    receiver.short_path = Some(b"short".to_vec());
    assert_eq!(open_notifier(&receiver, true), Ok(()));
    assert_eq!(
        open_notifier(&receiver, false),
        Err(HidError::NotifierUnavailable { pid: 0xC547 })
    );
}
