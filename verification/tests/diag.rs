use logibar::hid::diag::{
    class_name, describe_connection, describe_report, echo_ok, heard_line, next_part, overview,
    ping_request, reply_line, title, DiagPart, NotificationProbe, PingAction, PingKind, PingTrial,
    ProbeAction, Side,
};
use logibar::hid::error::HidError;
use logibar::hid::protocol::ReportClass;
use logibar::hid::receiver::ConnectionNotification;
use logibar::hid::scanner::HidInterface;

fn interface(pid: u16, usage_page: u16, usage: u16, path: &str) -> HidInterface {
    HidInterface {
        vendor_id: 0x046D,
        product_id: pid,
        usage_page,
        usage,
        interface_number: 2,
        path: path.as_bytes().to_vec(),
        serial: None,
        product: Some("USB Receiver".to_string()),
    }
}

fn list() -> Vec<HidInterface> {
    let mut foreign = interface(1, 0xFF00, 2, "foreign");
    foreign.vendor_id = 1;
    let mut keyboard = interface(0xC547, 0x0001, 6, "keyboard");
    keyboard.product = None;
    keyboard.interface_number = -1;
    vec![
        foreign,
        keyboard,
        interface(0xC547, 0xFF00, 1, "short"),
        interface(0xC547, 0xFF00, 2, "long"),
    ]
}

#[test]
fn the_overview_lists_interfaces_and_receivers() {
    assert_eq!(
        overview(&list()),
        vec![
            "=== All VID 0x046D HID interfaces hidapi sees ===",
            "PID C547  usage_page=0x0001 usage=0x0006 iface= -1  \"<none>\"\n           path=keyboard",
            "PID C547  usage_page=0xFF00 usage=0x0001 iface=  2  \"USB Receiver\"\n           path=short",
            "PID C547  usage_page=0xFF00 usage=0x0002 iface=  2  \"USB Receiver\"\n           path=long",
            "\n=== scan_receivers() result ===",
            "PID C547\n   long  (0x0002) = long\n   short (0x0001) = short",
        ]
    );
    assert_eq!(
        overview(&[interface(0xC547, 0xFF00, 2, "long")])[3],
        "PID C547\n   long  (0x0002) = long\n   short (0x0001) = <none>"
    );
    assert_eq!(
        overview(&[]),
        vec![
            "=== All VID 0x046D HID interfaces hidapi sees ===",
            "\n=== scan_receivers() result ===",
            "(none matched VID 0x046D + usage_page 0xFF00)",
        ]
    );
}

#[test]
fn paths_are_shown_as_text() {
    let mut odd = interface(0xC547, 0xFF00, 2, "");
    odd.path = vec![b'a', 0xFF];
    let trial = PingTrial::start(PingKind::Long, &[odd]);
    assert_eq!(trial.heading(), "\n-- PID C547  path=a\u{FFFD}");
}

#[test]
fn pings_are_tried_on_their_interfaces() {
    let short = PingTrial::start(PingKind::Short, &list());
    let paths: Vec<Vec<u8>> = short.targets.iter().map(|t| t.path.clone()).collect();
    assert_eq!(paths, vec![b"short".to_vec(), b"long".to_vec()]);
    let long = PingTrial::start(PingKind::Long, &list());
    assert_eq!(long.targets.len(), 1);
    assert_eq!(long.targets[0].path, b"long".to_vec());
    assert!(short.dead_end().is_none());
    let none = PingTrial::start(PingKind::Short, &[]);
    assert_eq!(none.action(), PingAction::Done);
    assert_eq!(none.dead_end().unwrap(), "(no 0xFF00 interface to probe)");
    let none = PingTrial::start(PingKind::Long, &[interface(1, 0xFF00, 1, "short")]);
    assert_eq!(
        none.dead_end().unwrap(),
        "(no usage=0x0002 long-report interface found)"
    );
}

#[test]
fn a_trial_covers_all_slots_of_all_targets() {
    let mut trial = PingTrial::start(PingKind::Short, &list());
    assert_eq!(trial.action(), PingAction::Open { target: 0 });
    assert_eq!(trial.heading(), "\n-- PID C547  path=short");
    assert_eq!(trial.on_open(Some("busy")).unwrap(), "   open failed: busy");
    assert_eq!(trial.action(), PingAction::Open { target: 1 });
    assert_eq!(trial.on_open(None).unwrap(), "   opened OK");
    assert_eq!(trial.action(), PingAction::Write { slot: 1 });
    assert_eq!(
        trial.on_write(Some("gone")).unwrap(),
        "   index 1: write failed: gone"
    );
    assert!(trial.on_write(None).is_none());
    assert_eq!(trial.action(), PingAction::Read { timeout_ms: 500, size: 8 });
    assert_eq!(
        trial.on_report(&[]).unwrap(),
        "   index 2: timeout (no response)"
    );
    trial.on_write(None);
    assert_eq!(
        trial.on_report(&[0x10, 3, 0, 0x1A, 4, 2, 0x56]).unwrap(),
        "   index 3: n=7 [10 03 00 1A 04 02 56]  echo(56) match=true"
    );
    trial.on_write(None);
    assert_eq!(
        trial.on_read_failure("gone").unwrap(),
        "   index 4: read failed: gone"
    );
    for _ in 5..=6 {
        trial.on_write(None);
        trial.on_report(&[]);
    }
    assert_eq!(trial.action(), PingAction::Done);
}

#[test]
fn long_pings_have_their_own_budget() {
    let mut trial = PingTrial::start(PingKind::Long, &list());
    trial.on_open(None);
    trial.on_write(None);
    assert_eq!(trial.action(), PingAction::Read { timeout_ms: 1000, size: 21 });
    assert_eq!(
        trial.on_report(&[0x11, 1, 0x8F]).unwrap(),
        "   index 1: n=3 [11 01 8F]"
    );
}

#[test]
fn ping_frames() {
    assert_eq!(ping_request(PingKind::Short, 1), vec![0x10, 1, 0, 0x1A, 0, 0, 0x54]);
    let mut long = vec![0x11, 6, 0, 0x1A, 0, 0, 0x53];
    long.resize(20, 0);
    assert_eq!(ping_request(PingKind::Long, 6), long);
}

#[test]
fn echoes_are_found_with_and_without_a_byte_in_front() {
    assert!(echo_ok(&[0x10, 1, 0, 0x1A, 0, 0, 0x54], 0x54));
    assert!(echo_ok(&[0x00, 0x10, 1, 0, 0x1A, 0, 0, 0x54], 0x54));
    assert!(!echo_ok(&[0x10, 1, 0, 0x1A, 0, 0, 0, 0x54], 0x54));
    assert!(!echo_ok(&[0x10, 1, 0, 0x1A, 0, 0x54], 0x54));
    assert_eq!(
        reply_line(PingKind::Short, 1, &[0x10]),
        "   index 1: n=1 [10]  echo(54) match=false"
    );
}

#[test]
fn parts_follow_each_other_while_there_is_something_to_ping() {
    let short = DiagPart::Pings(PingKind::Short);
    let long = DiagPart::Pings(PingKind::Long);
    assert_eq!(next_part(DiagPart::Overview, false), short);
    assert_eq!(next_part(short, true), long);
    assert_eq!(next_part(short, false), DiagPart::Done);
    assert_eq!(next_part(long, true), DiagPart::Probe);
    assert_eq!(next_part(long, false), DiagPart::Done);
    assert_eq!(next_part(DiagPart::Probe, true), DiagPart::Done);
    assert_eq!(next_part(DiagPart::Done, true), DiagPart::Done);
}

#[test]
fn parts_have_titles() {
    assert_eq!(
        title(DiagPart::Pings(PingKind::Short)).unwrap(),
        "\n=== SHORT ping (report 0x10) on each 0xFF00 interface, indices 1..=6 ==="
    );
    assert_eq!(
        title(DiagPart::Pings(PingKind::Long)).unwrap(),
        "\n=== LONG ping (report 0x11, 20 bytes) on usage=0x0002 interface, indices 1..=6 ==="
    );
    assert_eq!(
        title(DiagPart::Probe).unwrap(),
        "\n=== Notification probe (short collection: enable + announce, listen ~10s) ==="
    );
    assert_eq!(title(DiagPart::Overview), None);
    assert_eq!(title(DiagPart::Done), None);
}

#[test]
fn reports_are_described_as_they_are_debugged() {
    for class in [
        ReportClass::Reply,
        ReportClass::RegisterReply { sub_id: 0x81 },
        ReportClass::FeatureEvent { device_index: 1, feature_index: 6 },
        ReportClass::Connection { device_index: 255 },
        ReportClass::Notification { sub_id: 0x4B },
        ReportClass::Error,
    ] {
        assert_eq!(class_name(class), format!("{class:?}"));
    }
    for link_established in [false, true] {
        let conn = ConnectionNotification { device_index: 2, link_established, wpid: 0x4099 };
        assert_eq!(describe_connection(&conn), format!("{conn:?}"));
    }
    assert_eq!(describe_report(&[0x10, 0xFF]), "<runt>");
    assert_eq!(
        describe_report(&[0x10, 1, 0x41, 0x11, 0x32, 0x99, 0x40]),
        "Connection { device_index: 1 }  ConnectionNotification { device_index: 1, link_established: true, wpid: 16537 }"
    );
    assert_eq!(
        heard_line(Side::Long, &[0x11, 1, 6, 0, 50, 0, 0]),
        "   [long] n=7 [11 01 06 00 32 00 00]  -> FeatureEvent { device_index: 1, feature_index: 6 }"
    );
}

#[test]
fn a_probe_tells_of_every_step() {
    let mut probe = NotificationProbe::start(vec![0xC539, 0xC547]);
    assert_eq!(probe.action(), ProbeAction::OpenNotifier { index: 0 });
    assert_eq!(probe.heading(), "\n-- PID C539");
    assert_eq!(
        probe.on_open(Err(HidError::NotifierMissing { pid: 0xC539 })).unwrap(),
        "   receiver C539 has no short collection"
    );
    assert_eq!(probe.action(), ProbeAction::OpenNotifier { index: 1 });
    assert!(probe.on_open(Ok(())).is_none());
    assert_eq!(probe.action(), ProbeAction::EnableNotifications);
    assert_eq!(probe.on_enable(Ok(())).unwrap(), "   enable_notifications: OK");
    assert_eq!(probe.action(), ProbeAction::AskConnectedCount);
    assert_eq!(probe.on_count(Ok(12)).unwrap(), "   connected_count: 12");
    assert_eq!(probe.action(), ProbeAction::PokeAnnounce);
    assert_eq!(probe.on_announce(Ok(())).unwrap(), "   poke_announce: sent");
    assert_eq!(probe.action(), ProbeAction::OpenReceiver { index: 1 });
    assert_eq!(
        probe.on_open_long(true).unwrap(),
        "   listening ~10s on SHORT + LONG — toggle the charger now..."
    );
    let mut looks = 0;
    while let ProbeAction::Listen { side, timeout_ms } = probe.action() {
        assert_eq!(timeout_ms, 250);
        assert_eq!(side, if looks % 2 == 0 { Side::Short } else { Side::Long });
        let lines = if looks == 1 {
            let lines = probe.on_report(&[0x11]);
            assert_eq!(lines, vec!["   [long] n=1 [11]  -> <runt>".to_string()]);
            Vec::new()
        } else {
            probe.on_report(&[])
        };
        assert!(lines.is_empty());
        looks += 1;
    }
    assert_eq!(looks, 40);
    assert_eq!(probe.action(), ProbeAction::Done);
}

#[test]
fn a_probe_tells_of_failures_and_silence() {
    let mut probe = NotificationProbe::start(vec![0xC547]);
    probe.on_open(Ok(()));
    assert_eq!(
        probe.on_enable(Err(HidError::RegisterRejected { register: 0 })).unwrap(),
        "   enable_notifications: FAILED (receiver rejected register 0x00)"
    );
    assert_eq!(
        probe.on_count(Err(HidError::RegisterUnacknowledged { register: 2 })).unwrap(),
        "   connected_count: unavailable (no acknowledgement for register 0x02)"
    );
    assert_eq!(
        probe.on_announce(Err(HidError::RegisterWriteFailed)).unwrap(),
        "   poke_announce: FAILED (register write failed)"
    );
    probe.on_open_long(false);
    assert_eq!(
        probe.on_read_failure("gone"),
        vec!["   [short] read failed: gone".to_string()]
    );
    for _ in 1..39 {
        assert_eq!(
            probe.action(),
            ProbeAction::Listen { side: Side::Short, timeout_ms: 250 }
        );
        assert!(probe.on_report(&[]).is_empty());
    }
    assert_eq!(
        probe.on_report(&[]),
        vec!["   (no reports — receiver does not push notifications)".to_string()]
    );
    assert_eq!(probe.action(), ProbeAction::Done);
}
