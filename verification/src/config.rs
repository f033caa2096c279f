//! Device profiles: what was learned about a device the first time it was read.
//!
//! Profiles are kept in memory only. Loading gives an empty set and saving does
//! nothing.

use crate::hid::error::HidError;
use crate::text::{
    hex_digits, law_hex_digits_injective, law_hex_digits_value, number_of, push_hex, LOWER,
};
use std::collections::HashMap;
use vstd::prelude::*;

verus! {

broadcast use vstd::std_specs::hash::group_hash_axioms;

/// Which HID++ 2.0 battery feature a device has and its table index, plus the
/// display name.
#[derive(Clone, Debug)]
pub struct DeviceProfile {
    pub battery_feature_id: u16,
    pub battery_feature_index: u8,
    pub name: String,
}

/// A profile as plain values.
pub struct ProfileView {
    pub battery_feature_id: u16,
    pub battery_feature_index: u8,
    pub name: Seq<char>,
}

impl View for DeviceProfile {
    type V = ProfileView;

    open spec fn view(&self) -> ProfileView {
        ProfileView {
            battery_feature_id: self.battery_feature_id,
            battery_feature_index: self.battery_feature_index,
            name: self.name@,
        }
    }
}

/// The profiles of devices by wireless product id.
#[derive(Clone, Debug)]
pub struct DeviceProfiles {
    pub devices: HashMap<u16, DeviceProfile>,
}

impl View for DeviceProfiles {
    type V = Map<u16, ProfileView>;

    open spec fn view(&self) -> Map<u16, ProfileView> {
        self.devices@.map_values(|profile: DeviceProfile| profile@)
    }
}

impl Default for DeviceProfiles {
    fn default() -> (profiles: DeviceProfiles)
        ensures
            profiles@ == Map::<u16, ProfileView>::empty(),
    {
        let profiles: DeviceProfiles = DeviceProfiles { devices: HashMap::new() };
        assert(profiles@ =~= Map::<u16, ProfileView>::empty());
        profiles
    }
}

impl DeviceProfiles {
    /// A wireless product id as text: four lower-case hexadecimal digits, for
    /// instance "4099".
    pub fn key(wpid: u16) -> (key: String)
        ensures
            key@ == hex_digits(wpid as nat, 4, LOWER),
    {
        let mut key: String = String::new();
        push_hex(&mut key, wpid as u64, 4, LOWER);
        key
    }

    pub fn get(&self, wpid: u16) -> (profile: Option<&DeviceProfile>)
        ensures
            profile is Some <==> self@.contains_key(wpid),
            profile matches Some(p) ==> p@ == self@[wpid],
    {
        self.devices.get(&wpid)
    }

    /// Insert or replace a profile, returning true if it changed.
    pub fn upsert(&mut self, wpid: u16, profile: DeviceProfile) -> (changed: bool)
        ensures
            changed == !(old(self)@.contains_key(wpid) && old(self)@[wpid] == profile@),
            final(self)@ == old(self)@.insert(wpid, profile@),
    {
        if let Some(existing) = self.devices.get(&wpid) {
            if existing.battery_feature_id == profile.battery_feature_id
                && existing.battery_feature_index == profile.battery_feature_index && existing.name
                == profile.name {
                assert(self@ =~= self@.insert(wpid, profile@));
                return false;
            }
        }
        let ghost view = profile@;
        self.devices.insert(wpid, profile);
        assert(self@ =~= old(self)@.insert(wpid, view));
        true
    }
}

/// Profiles are not persisted: always an empty set.
pub fn load_device_profiles() -> (profiles: DeviceProfiles)
    ensures
        profiles@ == Map::<u16, ProfileView>::empty(),
{
    DeviceProfiles::default()
}

/// Profiles are not persisted: does nothing.
pub fn save_device_profiles(_profiles: &DeviceProfiles) -> (saved: Result<(), HidError>)
    ensures
        saved == Ok::<(), HidError>(()),
{
    Ok(())
}

/// Two wireless product ids with the same text are the same.
pub proof fn law_profile_key_injective(a: u16, b: u16)
    requires
        hex_digits(a as nat, 4, LOWER) == hex_digits(b as nat, 4, LOWER),
    ensures
        a == b,
{
    vstd::arithmetic::power::lemma_pow0(16);
    reveal_with_fuel(vstd::arithmetic::power::pow, 5);
    law_hex_digits_injective(a as nat, b as nat, 4, LOWER);
}

/// What was stored for a device is what is found for it, and no other device is
/// affected. Storing it again changes nothing.
pub proof fn law_upsert_then_get(
    profiles: Map<u16, ProfileView>,
    wpid: u16,
    profile: ProfileView,
    other: u16,
)
    ensures
        profiles.insert(wpid, profile)[wpid] == profile,
        other != wpid ==> profiles.insert(wpid, profile).contains_key(other)
            == profiles.contains_key(other),
        other != wpid && profiles.contains_key(other) ==> profiles.insert(wpid, profile)[other]
            == profiles[other],
        profiles.insert(wpid, profile).insert(wpid, profile) == profiles.insert(wpid, profile),
{
    assert(profiles.insert(wpid, profile).insert(wpid, profile) =~= profiles.insert(wpid, profile));
}

/// The text of a wireless product id reads as that id in four lower-case hex digits.
pub proof fn law_profile_key_value(wpid: u16)
    ensures
        hex_digits(wpid as nat, 4, LOWER).len() == 4,
        number_of(hex_digits(wpid as nat, 4, LOWER), 16) == wpid,
        forall|i: int|
            0 <= i < 4 ==> '0' <= (#[trigger] hex_digits(wpid as nat, 4, LOWER)[i]) <= '9' || 'a'
                <= hex_digits(wpid as nat, 4, LOWER)[i] <= 'f',
{
    reveal_with_fuel(vstd::arithmetic::power::pow, 5);
    law_hex_digits_value(wpid as nat, 4, LOWER);
}

} // verus!
