use logibar::hid::protocol::{
    classify, get_battery_status, get_battery_voltage, get_feature, get_feature_count,
    get_feature_id, get_unified_battery_status, is_charging_from_flags, is_charging_from_status,
    mv_to_percent, normalize_report, ping, ReportClass, ShortMsg, LONG_REPORT_ID, SHORT_REPORT_ID,
    SW_ID,
};

#[test]
fn encode_decode_roundtrip() {
    let msg = ShortMsg::new(1, 5, 0, [10, 20, 30]);
    let buf = msg.encode();
    let decoded = ShortMsg::decode(&buf);
    assert_eq!(decoded.device_index, 1);
    assert_eq!(decoded.feature_index, 5);
    assert_eq!(decoded.params, [10, 20, 30]);
}

#[test]
fn mv_to_percent_boundaries() {
    assert_eq!(mv_to_percent(4200), 100);
    assert_eq!(mv_to_percent(3537), 0);
    assert_eq!(mv_to_percent(3800), 46);
}

#[test]
fn sw_id_extracted() {
    let msg = ShortMsg::new(1, 0, 0, [0, 0, 42]);
    let buf = msg.encode();
    assert_eq!(ShortMsg::sw_id(&buf), SW_ID);
}

#[test]
fn classify_distinguishes_report_kinds() {
    // Reply to one of our 2.0 feature requests: small feature idx, function 0,
    // software-id nibble == ours.
    let reply = [LONG_REPORT_ID, 0x01, 0x06, SW_ID, 0, 0, 0];
    assert_eq!(classify(&reply), ReportClass::Reply);

    // Unsolicited 2.0 battery event: small feature idx, swid nibble == 0.
    let event = [LONG_REPORT_ID, 0x01, 0x06, 0x00, 50, 0, 0];
    assert_eq!(
        classify(&event),
        ReportClass::FeatureEvent {
            device_index: 0x01,
            feature_index: 0x06
        }
    );

    // 1.0 device-connection notification.
    let conn = [SHORT_REPORT_ID, 0x02, 0x41, 0xA1, 0x00, 0x12, 0x34];
    assert_eq!(
        classify(&conn),
        ReportClass::Connection { device_index: 0x02 }
    );

    // 1.0 register get reply (sub-id 0x81).
    let reg = [SHORT_REPORT_ID, 0xFF, 0x81, 0x02, 0x01, 0, 0];
    assert_eq!(classify(&reg), ReportClass::RegisterReply { sub_id: 0x81 });

    // Error replies.
    let err10 = [SHORT_REPORT_ID, 0xFF, 0x8F, 0x00, 0x09, 0, 0];
    assert_eq!(classify(&err10), ReportClass::Error);
    let err20 = [LONG_REPORT_ID, 0x01, 0xFF, 0x06, 0x05, 0, 0];
    assert_eq!(classify(&err20), ReportClass::Error);
}

#[test]
fn normalize_handles_prepended_report_id() {
    // No prepend: buffer already starts with the report id.
    let raw = [LONG_REPORT_ID, 0x01, 0x06, 0x0A, 1, 2, 3, 0];
    assert_eq!(
        normalize_report(&raw, 7),
        Some([LONG_REPORT_ID, 0x01, 0x06, 0x0A, 1, 2, 3])
    );

    // Prepended byte (not a report id) ahead of a genuine 0x11 header.
    let raw = [0x00, LONG_REPORT_ID, 0x01, 0x06, 0x0A, 1, 2, 3];
    assert_eq!(
        normalize_report(&raw, 8),
        Some([LONG_REPORT_ID, 0x01, 0x06, 0x0A, 1, 2, 3])
    );

    // Too short to be a header.
    assert_eq!(normalize_report(&[0x11, 0x01], 2), None);
}

#[test]
fn frames_carry_the_message_bytes() {
    let msg = ShortMsg::new(2, 0x0B, 0x0F, [1, 2, 3]);
    assert_eq!(msg.encode(), [0x10, 2, 0x0B, 0xFA, 1, 2, 3]);
    let long = msg.encode_long();
    assert_eq!(&long[..7], &[0x11, 2, 0x0B, 0xFA, 1, 2, 3]);
    assert!(long[7..].iter().all(|b| *b == 0));
    assert_eq!(ShortMsg::decode(&msg.encode()), msg);
}

#[test]
fn request_constructors_have_their_bytes() {
    assert_eq!(ping(3, 0x56).encode(), [0x10, 3, 0, 0x1A, 0, 0, 0x56]);
    assert_eq!(get_feature(1, 0x1004).encode(), [0x10, 1, 0, 0x0A, 0x10, 0x04, 0]);
    assert_eq!(get_feature_count(1, 2).encode(), [0x10, 1, 2, 0x0A, 0, 0, 0]);
    assert_eq!(get_feature_id(1, 2, 9).encode(), [0x10, 1, 2, 0x1A, 9, 0, 0]);
    assert_eq!(get_battery_status(4, 6).encode(), [0x10, 4, 6, 0x0A, 0, 0, 0]);
    assert_eq!(get_battery_voltage(4, 6).encode(), [0x10, 4, 6, 0x0A, 0, 0, 0]);
    assert_eq!(get_unified_battery_status(4, 6).encode(), [0x10, 4, 6, 0x1A, 0, 0, 0]);
}

#[test]
fn charge_does_not_fall_as_voltage_rises() {
    let mut last = 0;
    for mv in 3400..4300u16 {
        let percent = mv_to_percent(mv);
        assert!(percent >= last);
        last = percent;
    }
    assert_eq!(mv_to_percent(0), 0);
    assert_eq!(mv_to_percent(3538), 1);
    assert_eq!(mv_to_percent(4186), 99);
    assert_eq!(mv_to_percent(4187), 100);
    assert_eq!(mv_to_percent(u16::MAX), 100);
}

#[test]
fn charging_states() {
    let status: Vec<bool> = (0..6).map(is_charging_from_status).collect();
    assert_eq!(status, vec![false, true, true, false, true, false]);
    assert!(is_charging_from_flags(0x80));
    assert!(is_charging_from_flags(0x81));
    assert!(!is_charging_from_flags(0x82));
    assert!(!is_charging_from_flags(0x01));
}

#[test]
fn errors_and_foreign_replies_are_recognized() {
    assert!(ShortMsg::is_error(&[0x10, 1, 0x8F, 0, 0, 0, 0]));
    assert!(ShortMsg::is_error(&[0x11, 1, 0xFF, 0, 0, 0, 0]));
    assert!(!ShortMsg::is_error(&[0x11, 1, 0x06, 0, 0, 0, 0]));
    assert_eq!(
        classify(&[0x11, 1, 0x06, 0x13, 0, 0, 0]),
        ReportClass::Notification { sub_id: 3 }
    );
    assert_eq!(
        classify(&[0x10, 1, 0x4B, 0, 0, 0, 0]),
        ReportClass::Notification { sub_id: 0x4B }
    );
}
