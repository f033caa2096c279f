use logibar::config::{DeviceProfile, DeviceProfiles};
use logibar::hid::battery::{battery_request, join_bytes, pick_battery, read_battery};
use logibar::hid::device::{device_key, DeviceRead, FeatureCache, ReadPhase};
use logibar::hid::error::HidError;
use logibar::hid::exchange::Reply;
use logibar::hid::features::{Enumeration, EnumerationPhase};
use logibar::hid::name::{default_name, spell_name, trim_end_nul, NamePhase, NameRead};
use logibar::hid::protocol::ShortMsg;
use logibar::model::BatteryState;
use std::collections::HashMap;

const SILENCE: Reply = Err(HidError::NoResponse { retries: 5, feature: 0 });

fn reply(a: u8, b: u8, c: u8) -> Reply {
    Ok([0x11, 1, 0, 0x0A, a, b, c])
}

/// A device with a feature table and a name.
struct Device {
    ids: Vec<u16>,
    name: Vec<u8>,
    battery: [u8; 3],
    asked: Vec<ShortMsg>,
}

impl Device {
    fn answer(&mut self, msg: ShortMsg) -> Reply {
        self.asked.push(msg);
        match (msg.feature_index, msg.function_id) {
            (0, 0) => reply(1, 0, 0),
            (1, 0) => reply(self.ids.len() as u8, 0, 0),
            (1, 1) => {
                let id = self.ids[msg.params[0] as usize - 1];
                reply((id >> 8) as u8, id as u8, 0)
            }
            (index, function) => match self.ids[index as usize - 1] {
                0x0005 if function == 0 => reply(self.name.len() as u8, 0, 0),
                0x0005 => {
                    let at = msg.params[0] as usize;
                    let byte = |i: usize| *self.name.get(i).unwrap_or(&0xEE);
                    reply(byte(at), byte(at + 1), byte(at + 2))
                }
                _ => reply(self.battery[0], self.battery[1], self.battery[2]),
            },
        }
    }
}

fn mouse() -> Device {
    Device {
        ids: vec![0x0001, 0x0005, 0x0000, 0x1004],
        name: b"G502 X Plus".to_vec(),
        battery: [77, 8, 1],
        asked: Vec::new(),
    }
}

fn run(
    read: &mut DeviceRead,
    device: &mut Device,
    cache: &mut FeatureCache,
    profiles: &mut DeviceProfiles,
) {
    while let Some(ask) = read.ask() {
        let answer = device.answer(ask.msg);
        read.on_reply(cache, profiles, answer);
    }
}

fn outcome(read: DeviceRead) -> Result<Option<BatteryState>, HidError> {
    match read.phase {
        ReadPhase::Done(outcome) => outcome,
        _ => panic!("the read is not over"),
    }
}

#[test]
fn an_unknown_device_is_enumerated_named_and_read() {
    let mut device = mouse();
    let mut cache = FeatureCache::new();
    let mut profiles = DeviceProfiles::default();
    let mut read = DeviceRead::start(0xC547, 2, 0x4099, &cache, &profiles);
    run(&mut read, &mut device, &mut cache, &mut profiles);
    assert_eq!(
        outcome(read),
        Ok(Some(BatteryState {
            device_key: "C547:2".to_string(),
            display_name: "G502 X Plus".to_string(),
            pid: 0xC547,
            device_index: 2,
            battery_percent: 77,
            is_charging: true,
        }))
    );
    let profile = profiles.get(0x4099).unwrap();
    assert_eq!(profile.battery_feature_id, 0x1004);
    assert_eq!(profile.battery_feature_index, 4);
    assert_eq!(profile.name, "G502 X Plus");
    let entry = cache.get(0xC547, 2).unwrap();
    assert_eq!(entry.battery, Some((0x1004, 4)));
    assert_eq!(entry.display_name, "G502 X Plus");
    assert!(cache.get(0xC547, 3).is_none());
    assert!(device.asked.iter().all(|msg| msg.device_index == 2));
}

#[test]
fn a_known_device_is_only_asked_for_its_battery() {
    let mut device = mouse();
    let mut cache = FeatureCache::new();
    let mut profiles = DeviceProfiles::default();
    let mut read = DeviceRead::start(0xC547, 2, 0, &cache, &profiles);
    run(&mut read, &mut device, &mut cache, &mut profiles);
    assert!(profiles.devices.is_empty());
    device.asked.clear();
    device.battery = [50, 0, 0];
    let mut read = DeviceRead::start(0xC547, 2, 0, &cache, &profiles);
    run(&mut read, &mut device, &mut cache, &mut profiles);
    assert_eq!(device.asked.len(), 1);
    let state = outcome(read).unwrap().unwrap();
    assert_eq!((state.battery_percent, state.is_charging), (50, false));
}

#[test]
fn a_device_without_battery_has_no_state() {
    let mut device = mouse();
    device.ids = vec![0x0001, 0x0005];
    let mut cache = FeatureCache::new();
    let mut profiles = DeviceProfiles::default();
    let mut read = DeviceRead::start(0xC547, 1, 7, &cache, &profiles);
    run(&mut read, &mut device, &mut cache, &mut profiles);
    assert_eq!(outcome(read), Ok(None));
    assert!(profiles.devices.is_empty());
    let again = DeviceRead::start(0xC547, 1, 7, &cache, &profiles);
    assert!(again.ask().is_none());
    assert_eq!(outcome(again), Ok(None));
}

#[test]
fn a_profile_spares_the_enumeration() {
    let mut device = mouse();
    let mut cache = FeatureCache::new();
    let mut profiles = DeviceProfiles::default();
    profiles.upsert(
        7,
        DeviceProfile {
            battery_feature_id: 0x1004,
            battery_feature_index: 4,
            name: "Known".to_string(),
        },
    );
    let mut read = DeviceRead::start(0xC547, 1, 7, &cache, &profiles);
    run(&mut read, &mut device, &mut cache, &mut profiles);
    assert_eq!(device.asked.len(), 2);
    assert_eq!(outcome(read).unwrap().unwrap().display_name, "Known");
}

#[test]
fn a_stale_profile_is_replaced() {
    let mut device = mouse();
    let mut cache = FeatureCache::new();
    let mut profiles = DeviceProfiles::default();
    profiles.upsert(
        7,
        DeviceProfile {
            battery_feature_id: 0x1000,
            battery_feature_index: 3,
            name: "Old".to_string(),
        },
    );
    let mut read = DeviceRead::start(0xC547, 1, 7, &cache, &profiles);
    assert_eq!(read.ask().unwrap().msg, ShortMsg::new(1, 3, 0, [0, 0, 0]));
    read.on_reply(&mut cache, &mut profiles, SILENCE);
    run(&mut read, &mut device, &mut cache, &mut profiles);
    assert_eq!(outcome(read).unwrap().unwrap().display_name, "G502 X Plus");
    assert_eq!(profiles.get(7).unwrap().battery_feature_id, 0x1004);
}

#[test]
fn an_unsupported_profile_is_not_tried() {
    let cache = FeatureCache::new();
    let mut profiles = DeviceProfiles::default();
    profiles.upsert(
        7,
        DeviceProfile {
            battery_feature_id: 0x1F20,
            battery_feature_index: 3,
            name: String::new(),
        },
    );
    let read = DeviceRead::start(0xC547, 1, 7, &cache, &profiles);
    assert_eq!(read.ask().unwrap().msg, ShortMsg::new(1, 0, 0, [0, 1, 0]));
}

#[test]
fn a_failed_read_leaves_no_trace() {
    let mut cache = FeatureCache::new();
    let mut profiles = DeviceProfiles::default();
    let mut read = DeviceRead::start(0xC547, 1, 7, &cache, &profiles);
    while read.ask().is_some() {
        read.on_reply(&mut cache, &mut profiles, SILENCE);
    }
    assert_eq!(outcome(read), Err(HidError::EnumerationFailed { slot: 1 }));
    assert!(cache.get(0xC547, 1).is_none());
    assert!(profiles.devices.is_empty());
}

#[test]
fn a_device_without_a_name_gets_a_default() {
    let mut device = mouse();
    device.ids = vec![0x0001, 0x1000];
    let mut cache = FeatureCache::new();
    let mut profiles = DeviceProfiles::default();
    let mut read = DeviceRead::start(0xC547, 3, 0, &cache, &profiles);
    run(&mut read, &mut device, &mut cache, &mut profiles);
    assert_eq!(
        outcome(read).unwrap().unwrap().display_name,
        "Logitech Device (index 3)"
    );
}

#[test]
fn a_battery_that_does_not_answer_fails_the_read() {
    let mut device = mouse();
    let mut cache = FeatureCache::new();
    let mut profiles = DeviceProfiles::default();
    let mut read = DeviceRead::start(0xC547, 3, 0, &cache, &profiles);
    run(&mut read, &mut device, &mut cache, &mut profiles);
    let mut read = DeviceRead::start(0xC547, 3, 0, &cache, &profiles);
    read.on_reply(&mut cache, &mut profiles, Err(HidError::ReadFailed));
    assert_eq!(outcome(read), Err(HidError::ReadFailed));
}

#[test]
fn device_keys_join_receiver_and_slot() {
    assert_eq!(device_key(0xC547, 2), "C547:2");
    assert_eq!(device_key(0x00AB, 10), "00AB:10");
}

#[test]
fn an_enumeration_is_attempted_three_times() {
    let mut enumeration = Enumeration::start(2);
    let first = enumeration.ask().unwrap();
    assert_eq!(first.pause_ms, 0);
    enumeration.on_reply(SILENCE);
    assert_eq!(enumeration.ask().unwrap().pause_ms, 100);
    // IFeatureSet is not there.
    enumeration.on_reply(reply(0, 0, 0));
    enumeration.on_reply(reply(1, 0, 0));
    enumeration.on_reply(reply(2, 0, 0));
    enumeration.on_reply(SILENCE);
    assert_eq!(
        enumeration.phase,
        EnumerationPhase::Failed(HidError::EnumerationFailed { slot: 2 })
    );
    assert!(enumeration.ask().is_none());
}

#[test]
fn an_enumeration_fills_the_table() {
    let mut enumeration = Enumeration::start(2);
    for answer in [
        reply(9, 0, 0),
        reply(3, 0, 0),
        reply(0x10, 0x00, 0),
        reply(0, 0, 0),
        reply(0x00, 0x05, 0),
    ] {
        enumeration.on_reply(answer);
    }
    assert_eq!(enumeration.phase, EnumerationPhase::Done);
    let expected: HashMap<u16, u8> = [(1, 9), (0x1000, 1), (5, 3)].into_iter().collect();
    assert_eq!(enumeration.features, expected);
}

#[test]
fn an_empty_table_is_done_at_once() {
    let mut enumeration = Enumeration::start(2);
    enumeration.on_reply(reply(9, 0, 0));
    enumeration.on_reply(reply(0, 0, 0));
    assert_eq!(enumeration.phase, EnumerationPhase::Done);
    assert_eq!(enumeration.features.len(), 1);
}

#[test]
fn names_are_read_in_chunks_of_three() {
    let mut read = NameRead::start(1, Some(5));
    assert_eq!(read.ask(), Some(ShortMsg::new(1, 5, 0, [0, 0, 0])));
    read.on_reply(reply(4, 0, 0));
    assert_eq!(read.ask(), Some(ShortMsg::new(1, 5, 1, [0, 0, 0])));
    read.on_reply(reply(b'L', b'i', b'f'));
    assert_eq!(read.ask(), Some(ShortMsg::new(1, 5, 1, [3, 0, 0])));
    read.on_reply(reply(b't', b'!', b'!'));
    assert_eq!(read.ask(), None);
    assert_eq!(read.name(), "Lift");
}

#[test]
fn names_that_cannot_be_read_have_a_cause() {
    let read = NameRead::start(1, None);
    assert_eq!(read.phase, NamePhase::Failed(HidError::NameMissing));
    assert_eq!(read.name(), "Logitech Device (index 1)");
    let mut read = NameRead::start(1, Some(5));
    read.on_reply(reply(0, 0, 0));
    assert_eq!(read.phase, NamePhase::Failed(HidError::NameEmpty));
    let mut read = NameRead::start(1, Some(5));
    read.on_reply(reply(9, 0, 0));
    read.on_reply(Err(HidError::ReadFailed));
    assert_eq!(read.phase, NamePhase::Failed(HidError::ReadFailed));
    assert_eq!(read.name(), default_name(1));
}

#[test]
fn names_are_decoded_and_trimmed() {
    assert_eq!(spell_name(b"MX Keys\0\0"), "MX Keys");
    assert_eq!(spell_name(b"a\0b\0"), "a\0b");
    assert_eq!(spell_name("Tastatür".as_bytes()), "Tastatür");
    assert_eq!(spell_name(&[b'a', 0xFF, b'b']), "a\u{FFFD}b");
    assert_eq!(spell_name(&[0, 0]), "");
    assert_eq!(trim_end_nul("x\0"), "x");
}

#[test]
fn batteries_are_picked_by_preference() {
    let table = |ids: &[u16]| -> HashMap<u16, u8> {
        ids.iter().enumerate().map(|(i, id)| (*id, i as u8 + 1)).collect()
    };
    assert_eq!(pick_battery(&table(&[0x1004, 0x1001, 0x1000])), Some((0x1000, 3)));
    assert_eq!(pick_battery(&table(&[0x1004, 0x1001])), Some((0x1001, 2)));
    assert_eq!(pick_battery(&table(&[0x1004])), Some((0x1004, 1)));
    assert_eq!(pick_battery(&table(&[0x0001])), None);
}

#[test]
fn batteries_are_asked_and_read_by_feature() {
    assert_eq!(battery_request(1, 0x1000, 6), Ok(ShortMsg::new(1, 6, 0, [0, 0, 0])));
    assert_eq!(battery_request(1, 0x1001, 6), Ok(ShortMsg::new(1, 6, 0, [0, 0, 0])));
    assert_eq!(battery_request(1, 0x1004, 6), Ok(ShortMsg::new(1, 6, 1, [0, 0, 0])));
    let unsupported = HidError::UnsupportedBattery { feature_id: 0x1F20 };
    assert_eq!(battery_request(1, 0x1F20, 6), Err(unsupported));
    assert_eq!(read_battery(0x1000, &[0x11, 1, 6, 0x0A, 90, 50, 3]), Ok((90, false)));
    assert_eq!(read_battery(0x1004, &[0x11, 1, 6, 0x0A, 90, 50, 4]), Ok((90, true)));
    // 3800 mV with external power.
    assert_eq!(read_battery(0x1001, &[0x11, 1, 6, 0x0A, 0x0E, 0xD8, 0x80]), Ok((46, true)));
    assert_eq!(read_battery(0x1F20, &[0; 7]), Err(unsupported));
    assert_eq!(join_bytes(0x12, 0x34), 0x1234);
}
