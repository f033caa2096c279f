use logibar::hid::client::{
    DeviceEvent, Polled, StopReason, Worker, WorkerAction, WorkerCommand,
};
use logibar::hid::error::HidError;
use logibar::hid::exchange::Reply;
use logibar::hid::protocol::ping;

const SILENCE: Reply = Err(HidError::NoResponse { retries: 5, feature: 0 });

fn reply(a: u8, b: u8, c: u8) -> Reply {
    Ok([0x11, 1, 0, 0x0A, a, b, c])
}

fn announced(slot: u8, flags: u8) -> [u8; 7] {
    [0x10, slot, 0x41, 0x11, flags, 0x99, 0x40]
}

fn notified() -> Worker {
    let mut worker = Worker::start(0xC547, true, 180);
    assert_eq!(worker.action(), WorkerAction::EnableNotifications);
    worker.on_registers(true);
    assert_eq!(worker.action(), WorkerAction::PokeAnnounce);
    worker.on_registers(true);
    assert_eq!(worker.action(), WorkerAction::RestartTimer);
    worker.on_restart();
    assert_eq!(worker.action(), WorkerAction::WaitShort { timeout_ms: 1000 });
    worker
}

/// Answers the requests for a device with one battery feature and no name.
fn introduce(worker: &mut Worker, percent: u8) -> Option<DeviceEvent> {
    assert!(worker.on_reply(reply(1, 0, 0)).is_none());
    assert!(worker.on_reply(reply(2, 0, 0)).is_none());
    assert!(worker.on_reply(reply(0x00, 0x01, 0)).is_none());
    assert!(worker.on_reply(reply(0x10, 0x00, 0)).is_none());
    worker.on_reply(reply(percent, 0, 0))
}

fn finish_cycle(worker: &mut Worker) {
    assert_eq!(worker.action(), WorkerAction::PollLong);
    worker.on_event(&[]);
    assert_eq!(worker.action(), WorkerAction::NextCommand);
    worker.on_command(Polled::Empty);
    assert_eq!(worker.action(), WorkerAction::CheckTimer);
    worker.on_timer(0);
}

fn percent_of(event: Option<DeviceEvent>) -> (String, u8) {
    match event {
        Some(DeviceEvent::Update(state)) => (state.device_key, state.battery_percent),
        _ => panic!("no update"),
    }
}

fn with_device(slot: u8) -> Worker {
    let mut worker = notified();
    assert!(worker.on_wait(&announced(slot, 0x32)).is_none());
    let event = introduce(&mut worker, 60);
    assert_eq!(percent_of(event), (format!("C547:{slot}"), 60));
    worker
}

#[test]
fn a_device_that_links_up_is_read() {
    let mut worker = with_device(2);
    assert!(worker.known.contains(2));
    finish_cycle(&mut worker);
    assert_eq!(worker.action(), WorkerAction::WaitShort { timeout_ms: 1000 });
}

#[test]
fn a_device_that_leaves_is_gone_once() {
    let mut worker = with_device(2);
    finish_cycle(&mut worker);
    match worker.on_wait(&announced(2, 0x72)) {
        Some(DeviceEvent::Gone(key)) => assert_eq!(key, "C547:2"),
        _ => panic!("no departure"),
    }
    assert!(!worker.known.contains(2));
    finish_cycle(&mut worker);
    assert!(worker.on_wait(&announced(2, 0x72)).is_none());
}

#[test]
fn slots_that_no_receiver_has_are_ignored() {
    for slot in [0, 7, 0xFF] {
        let mut worker = notified();
        assert!(worker.on_wait(&announced(slot, 0x32)).is_none());
        assert_eq!(worker.action(), WorkerAction::PollLong);
    }
}

#[test]
fn other_reports_and_timeouts_end_a_wait() {
    for report in [&[][..], &[0x10, 0xFF][..], &[0x10, 1, 0x4B, 0, 0, 0, 0][..]] {
        let mut worker = notified();
        assert!(worker.on_wait(report).is_none());
        assert_eq!(worker.action(), WorkerAction::PollLong);
    }
}

#[test]
fn a_device_that_does_not_answer_is_not_known() {
    let mut worker = notified();
    worker.on_wait(&announced(2, 0x32));
    for attempt in 0..3 {
        match worker.action() {
            WorkerAction::Ask { msg, timeout_ms, retries, pause_ms } => {
                assert_eq!(msg.device_index, 2);
                assert_eq!((timeout_ms, retries), (500, 5));
                assert_eq!(pause_ms, if attempt == 0 { 0 } else { 100 });
            }
            _ => panic!("no request"),
        }
        assert!(worker.on_reply(SILENCE).is_none());
    }
    assert_eq!(worker.action(), WorkerAction::PollLong);
    assert!(!worker.known.contains(2));
}

#[test]
fn events_of_known_devices_are_followed_up() {
    let mut worker = with_device(2);
    // From an unknown device, and no event at all.
    worker.on_event(&[0x11, 3, 2, 0x00, 1, 2, 3]);
    assert_eq!(worker.action(), WorkerAction::PollLong);
    worker.on_event(&[0x11, 2, 2, 0x0A, 1, 2, 3]);
    worker.on_event(&[0x11]);
    assert_eq!(worker.action(), WorkerAction::PollLong);
    worker.on_event(&[0x11, 2, 2, 0x00, 1, 2, 3]);
    assert!(matches!(worker.action(), WorkerAction::Ask { .. }));
    assert_eq!(percent_of(worker.on_reply(reply(61, 0, 1))), ("C547:2".to_string(), 61));
    assert_eq!(worker.action(), WorkerAction::PollLong);
}

#[test]
fn a_refresh_announces_and_reads_again() {
    let mut worker = with_device(5);
    finish_cycle(&mut worker);
    worker.on_wait(&announced(2, 0x32));
    // Device 2 has the wireless product id of device 5 and is read through its profile.
    assert!(worker.on_reply(reply(20, 0, 0)).is_none());
    assert_eq!(percent_of(worker.on_reply(reply(20, 0, 0))), ("C547:2".to_string(), 20));
    worker.on_event(&[]);
    worker.on_command(Polled::Command(WorkerCommand::Refresh));
    assert_eq!(worker.action(), WorkerAction::PokeAnnounce);
    worker.on_registers(true);
    assert_eq!(percent_of(worker.on_reply(reply(21, 0, 0))), ("C547:2".to_string(), 21));
    assert_eq!(percent_of(worker.on_reply(reply(59, 0, 0))), ("C547:5".to_string(), 59));
    assert_eq!(worker.action(), WorkerAction::NextCommand);
}

#[test]
fn the_safety_timer_starts_a_round() {
    let mut worker = with_device(2);
    worker.on_event(&[]);
    worker.on_command(Polled::Command(WorkerCommand::SetSafetyInterval(5)));
    assert_eq!(worker.action(), WorkerAction::NextCommand);
    worker.on_command(Polled::Empty);
    worker.on_timer(14);
    assert_eq!(worker.action(), WorkerAction::WaitShort { timeout_ms: 1000 });
    worker.on_wait(&[]);
    worker.on_event(&[]);
    worker.on_command(Polled::Empty);
    worker.on_timer(15);
    assert_eq!(worker.action(), WorkerAction::EnableNotifications);
    worker.on_registers(true);
    worker.on_registers(true);
    // A re-read that fails is passed over.
    assert!(worker.on_reply(SILENCE).is_none());
    assert_eq!(worker.action(), WorkerAction::RestartTimer);
    assert!(worker.known.contains(2));
    worker.on_restart();
    assert_eq!(worker.action(), WorkerAction::WaitShort { timeout_ms: 1000 });
}

#[test]
fn receivers_without_notifications_are_swept() {
    let mut worker = Worker::start(0xC547, false, 180);
    for slot in 1..=6u8 {
        let echo = 0x55 ^ slot;
        assert_eq!(
            worker.action(),
            WorkerAction::Ask { msg: ping(slot, echo), timeout_ms: 300, retries: 2, pause_ms: 0 }
        );
        if slot == 4 {
            assert!(worker.on_reply(Ok([0x11, 4, 0, 0x1A, 4, 2, echo])).is_none());
            assert_eq!(percent_of(introduce(&mut worker, 33)), ("C547:4".to_string(), 33));
        } else {
            assert!(worker.on_reply(SILENCE).is_none());
        }
    }
    assert_eq!(worker.action(), WorkerAction::RestartTimer);
    worker.on_restart();
    assert_eq!(worker.action(), WorkerAction::Idle { ms: 1000 });
    // A report cannot come from an interface that is not there.
    assert!(worker.on_wait(&announced(2, 0x32)).is_none());
    assert_eq!(worker.action(), WorkerAction::PollLong);
    assert!(!worker.known.contains(2));
}

#[test]
fn receivers_that_ignore_the_setup_are_swept() {
    let mut worker = Worker::start(0xC547, true, 180);
    worker.on_registers(false);
    // Announcements are asked for all the same.
    assert_eq!(worker.action(), WorkerAction::PokeAnnounce);
    worker.on_registers(true);
    for slot in 1..=6u8 {
        let echo = 0x55 ^ slot;
        assert_eq!(
            worker.action(),
            WorkerAction::Ask { msg: ping(slot, echo), timeout_ms: 300, retries: 2, pause_ms: 0 }
        );
        if slot == 3 {
            worker.on_reply(Ok([0x11, 3, 0, 0x1A, 4, 2, echo]));
            assert_eq!(percent_of(introduce(&mut worker, 44)), ("C547:3".to_string(), 44));
        } else {
            worker.on_reply(SILENCE);
        }
    }
    assert_eq!(worker.action(), WorkerAction::RestartTimer);
    worker.on_restart();
    // Notifications that come nevertheless are still waited for.
    assert_eq!(worker.action(), WorkerAction::WaitShort { timeout_ms: 1000 });
    worker.on_wait(&[]);
    worker.on_event(&[]);
    // A refresh sweeps again, and reads the known device again.
    worker.on_command(Polled::Command(WorkerCommand::Refresh));
    assert_eq!(worker.action(), WorkerAction::PokeAnnounce);
    worker.on_registers(true);
    for _ in 1..=6 {
        worker.on_reply(SILENCE);
    }
    assert_eq!(percent_of(worker.on_reply(reply(43, 0, 0))), ("C547:3".to_string(), 43));
    worker.on_command(Polled::Empty);
    // A setup that is acknowledged ends the sweeping.
    worker.on_timer(180);
    assert_eq!(worker.action(), WorkerAction::EnableNotifications);
    worker.on_registers(true);
    worker.on_registers(true);
    assert_eq!(percent_of(worker.on_reply(reply(42, 0, 0))), ("C547:3".to_string(), 42));
    assert_eq!(worker.action(), WorkerAction::RestartTimer);
}

#[test]
fn a_worker_stops_when_told_to() {
    for polled in [Polled::Command(WorkerCommand::Exit), Polled::Disconnected] {
        let mut worker = notified();
        worker.on_wait(&[]);
        worker.on_event(&[]);
        worker.on_command(polled);
        assert_eq!(worker.action(), WorkerAction::Stop(StopReason::Exit));
        worker.on_wait(&announced(1, 0x32));
        worker.on_command(Polled::Command(WorkerCommand::Refresh));
        assert_eq!(worker.action(), WorkerAction::Stop(StopReason::Exit));
    }
}

#[test]
fn a_worker_stops_when_its_receiver_is_unplugged() {
    let mut worker = notified();
    assert!(worker.on_wait_failure().is_empty());
    assert_eq!(worker.action(), WorkerAction::Stop(StopReason::NotifierLost));
}

#[test]
fn devices_of_an_unplugged_receiver_are_gone() {
    let mut worker = with_device(5);
    finish_cycle(&mut worker);
    worker.on_wait(&announced(2, 0x32));
    worker.on_reply(reply(20, 0, 0));
    worker.on_reply(reply(20, 0, 0));
    finish_cycle(&mut worker);
    let gone: Vec<String> = worker
        .on_wait_failure()
        .into_iter()
        .map(|event| match event {
            DeviceEvent::Gone(key) => key,
            DeviceEvent::Update(_) => panic!("an update"),
        })
        .collect();
    assert_eq!(gone, vec!["C547:2".to_string(), "C547:5".to_string()]);
    assert!(!worker.known.contains(2) && !worker.known.contains(5));
    assert_eq!(worker.action(), WorkerAction::Stop(StopReason::NotifierLost));
    assert!(worker.on_wait_failure().is_empty());
}

#[test]
fn only_a_wait_can_lose_the_receiver() {
    let mut worker = with_device(5);
    assert!(worker.on_wait_failure().is_empty());
    assert!(worker.known.contains(5));
    assert_eq!(worker.action(), WorkerAction::PollLong);
}

#[test]
fn the_safety_interval_has_a_floor() {
    assert_eq!(Worker::start(1, true, 0).safety_secs, 15);
    assert_eq!(Worker::start(1, true, 180).safety_secs, 180);
}
