use logibar::hid::discovery::{Discovery, DiscoveryAction};
use logibar::hid::error::HidError;
use logibar::hid::exchange::Reply;
use logibar::hid::protocol::ping;
use logibar::model::PollResult;
use logibar::hid::poll::{
    device_error, receiver_error, without_hid_access, Poll, PollAction,
};

const SILENCE: Reply = Err(HidError::NoResponse { retries: 2, feature: 0 });

fn count_of(n: u8) -> Reply {
    Ok([0x10, 0xFF, 0x81, 0x02, 0x00, n, 0x00])
}

fn announced(slot: u8, flags: u8) -> [u8; 7] {
    [0x10, slot, 0x41, 0x11, flags, 0x99, 0x40]
}

fn up_to_the_window(count: Reply) -> Discovery {
    let mut discovery = Discovery::start();
    assert_eq!(discovery.action(), DiscoveryAction::OpenNotifier);
    discovery.on_open(true);
    assert_eq!(discovery.action(), DiscoveryAction::EnableNotifications);
    discovery.on_step();
    assert_eq!(discovery.action(), DiscoveryAction::AskConnectedCount);
    discovery.on_reply(count);
    assert_eq!(discovery.action(), DiscoveryAction::PokeAnnounce);
    discovery.on_step();
    assert_eq!(discovery.action(), DiscoveryAction::ArmWindow { ms: 1500 });
    discovery.on_step();
    assert_eq!(discovery.action(), DiscoveryAction::CheckWindow);
    discovery
}

#[test]
fn listening_ends_when_all_devices_were_announced() {
    let mut discovery = up_to_the_window(count_of(2));
    discovery.on_window(false);
    assert_eq!(discovery.action(), DiscoveryAction::Listen { timeout_ms: 300 });
    discovery.on_heard(&announced(3, 0x32));
    discovery.on_window(false);
    // The same device again, one whose link is down, and something else.
    discovery.on_heard(&announced(3, 0x32));
    discovery.on_window(false);
    discovery.on_heard(&announced(4, 0x72));
    discovery.on_window(false);
    discovery.on_heard(&[]);
    discovery.on_window(false);
    discovery.on_heard(&announced(1, 0x32));
    assert_eq!(discovery.action(), DiscoveryAction::Done);
    assert_eq!(discovery.slots, vec![(3, 0x4099), (1, 0x4099)]);
}

#[test]
fn listening_ends_with_the_window() {
    let mut discovery = up_to_the_window(SILENCE);
    discovery.on_window(false);
    discovery.on_heard(&announced(1, 0x32));
    assert_eq!(discovery.action(), DiscoveryAction::CheckWindow);
    discovery.on_window(true);
    assert_eq!(discovery.action(), DiscoveryAction::Done);
    assert_eq!(discovery.slots, vec![(1, 0x4099)]);
}

fn sweep(discovery: &mut Discovery, present: &[u8]) {
    for slot in 1..=6u8 {
        let echo = 0x55 ^ slot;
        assert_eq!(
            discovery.action(),
            DiscoveryAction::Ask { msg: ping(slot, echo), timeout_ms: 300, retries: 2 }
        );
        if present.contains(&slot) {
            discovery.on_reply(Ok([0x11, slot, 0, 0x1A, 4, 2, echo]));
        } else {
            discovery.on_reply(SILENCE);
        }
    }
}

#[test]
fn silent_receivers_are_swept() {
    let mut discovery = up_to_the_window(count_of(0));
    discovery.on_window(true);
    sweep(&mut discovery, &[2, 6]);
    assert_eq!(discovery.action(), DiscoveryAction::Done);
    assert_eq!(discovery.slots, vec![(2, 0), (6, 0)]);
}

#[test]
fn receivers_without_a_short_collection_are_swept() {
    let mut discovery = Discovery::start();
    discovery.on_open(false);
    // An echo of something else is no answer.
    discovery.on_reply(Ok([0x11, 1, 0, 0x1A, 4, 2, 0x00]));
    for _ in 2..=6 {
        discovery.on_reply(SILENCE);
    }
    assert_eq!(discovery.action(), DiscoveryAction::Done);
    assert!(discovery.slots.is_empty());
}

#[test]
fn a_pass_reads_what_it_finds() {
    let mut poll = Poll::start(vec![0xC539, 0xC547]);
    assert_eq!(poll.action(), PollAction::OpenReceiver { index: 0 });
    poll.on_open(false);
    assert_eq!(poll.action(), PollAction::OpenReceiver { index: 1 });
    poll.on_open(true);
    assert_eq!(
        poll.action(),
        PollAction::Discover { index: 1, action: DiscoveryAction::OpenNotifier }
    );
    poll.on_notifier(true);
    poll.on_step();
    poll.on_reply(count_of(3));
    poll.on_step();
    poll.on_step();
    for slot in [1, 2, 3] {
        poll.on_window(false);
        poll.on_heard(&announced(slot, 0x32));
    }
    // Device 1: a table with one battery feature and no name.
    for payload in [[1, 0, 0], [2, 0, 0], [0, 1, 0], [0x10, 0x00, 0], [64, 0, 0]] {
        assert!(matches!(poll.action(), PollAction::Ask { retries: 5, .. }));
        poll.on_reply(Ok([0x11, 1, 0, 0x0A, payload[0], payload[1], payload[2]]));
    }
    // Devices 2 and 3 have the profile of device 1. Device 2 answers neither through
    // the profile nor to its enumeration.
    for _ in 0..4 {
        poll.on_reply(SILENCE);
    }
    for payload in [[31, 0, 1], [31, 0, 1]] {
        poll.on_reply(Ok([0x11, 3, 0, 0x0A, payload[0], payload[1], payload[2]]));
    }
    assert_eq!(poll.action(), PollAction::Done);
    let result: PollResult = poll.finish();
    assert_eq!(
        result.errors,
        vec![
            "receiver C539: failed to open receiver C539".to_string(),
            "receiver C547 index 2: feature enumeration failed for index 2".to_string(),
        ]
    );
    let found: Vec<(String, u8, bool)> = result
        .devices
        .into_iter()
        .map(|d| (d.device_key, d.battery_percent, d.is_charging))
        .collect();
    assert_eq!(
        found,
        vec![("C547:1".to_string(), 64, false), ("C547:3".to_string(), 31, true)]
    );
}

#[test]
fn a_pass_over_nothing_finds_nothing() {
    let poll = Poll::start(vec![]);
    assert_eq!(poll.action(), PollAction::Done);
    let result = poll.finish();
    assert!(result.devices.is_empty() && result.errors.is_empty());
}

#[test]
fn a_pass_over_closed_receivers_has_a_line_for_each() {
    let mut poll = Poll::start(vec![1, 2]);
    poll.on_open(false);
    poll.on_open(false);
    assert_eq!(poll.action(), PollAction::Done);
    assert_eq!(
        poll.finish().errors,
        vec![
            "receiver 0001: failed to open receiver 0001".to_string(),
            "receiver 0002: failed to open receiver 0002".to_string(),
        ]
    );
}

#[test]
fn a_pass_ends_sorted() {
    let mut poll = Poll::start(vec![2, 1]);
    for _ in 0..2 {
        poll.on_open(true);
        poll.on_notifier(false);
        poll.on_reply(Ok([0x11, 1, 0, 0x1A, 0, 0, 0x54]));
        for _ in 2..=6 {
            poll.on_reply(SILENCE);
        }
        for payload in [[1, 0], [2, 0], [0, 1], [0x10, 0x00], [64, 0]] {
            poll.on_reply(Ok([0x11, 1, 0, 0x0A, payload[0], payload[1], 0]));
        }
    }
    assert_eq!(poll.action(), PollAction::Done);
    let pids: Vec<u16> = poll.finish().devices.iter().map(|d| d.pid).collect();
    assert_eq!(pids, vec![1, 2]);
}

#[test]
fn poll_error_lines() {
    assert_eq!(
        receiver_error(0xC547, HidError::ReceiverUnavailable { pid: 0xC547 }),
        "receiver C547: failed to open receiver C547"
    );
    assert_eq!(
        device_error(0xC547, 4, HidError::WriteFailed),
        "receiver C547 index 4: HID write failed"
    );
    let result = without_hid_access("no backend");
    assert!(result.devices.is_empty());
    assert_eq!(
        result.errors,
        vec!["failed to initialize hidapi: no backend".to_string()]
    );
}
