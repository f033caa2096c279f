use logibar::config::{
    load_device_profiles, save_device_profiles, DeviceProfile, DeviceProfiles,
};

fn profile(index: u8, name: &str) -> DeviceProfile {
    DeviceProfile {
        battery_feature_id: 0x1004,
        battery_feature_index: index,
        name: name.to_string(),
    }
}

#[test]
fn keys_are_four_lower_case_digits() {
    assert_eq!(DeviceProfiles::key(0x4099), "4099");
    assert_eq!(DeviceProfiles::key(0x00AB), "00ab");
}

#[test]
fn upsert_tells_whether_something_changed() {
    let mut profiles = load_device_profiles();
    assert!(profiles.get(0x4099).is_none());
    assert!(profiles.upsert(0x4099, profile(8, "G502")));
    assert!(!profiles.upsert(0x4099, profile(8, "G502")));
    assert!(profiles.upsert(0x4099, profile(9, "G502")));
    assert!(profiles.upsert(0x4099, profile(9, "G502 X")));
    let found = profiles.get(0x4099).unwrap();
    assert_eq!(found.battery_feature_id, 0x1004);
    assert_eq!(found.battery_feature_index, 9);
    assert_eq!(found.name, "G502 X");
    assert!(profiles.get(0x4098).is_none());
}

#[test]
fn profiles_are_not_persisted() {
    let mut profiles = DeviceProfiles::default();
    profiles.upsert(1, profile(1, "a"));
    assert!(save_device_profiles(&profiles).is_ok());
    assert!(load_device_profiles().get(1).is_none());
}
