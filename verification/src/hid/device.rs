//! Reading one device: which battery feature it has, its name, its charge.
//!
//! What never changes while a device stays paired is found out once and kept in a
//! [`FeatureCache`]. A persisted profile (by wireless product id) spares a freshly
//! woken device the many round-trips of an enumeration; it is trusted once a battery
//! read through it succeeds.

use crate::config::{save_device_profiles, DeviceProfile, DeviceProfiles, ProfileView};
use crate::hid::battery::{
    battery_msg, battery_reading, battery_request, law_battery_preference,
    law_battery_request_goes_to_the_device, law_percentage_is_byte_four,
    law_voltage_is_bytes_four_and_five, pick_battery, preferred_battery, read_battery,
    supported_battery,
};
use crate::hid::error::HidError;
use crate::hid::exchange::Reply;
use crate::hid::features::{
    feature_table, good_replies, ids_of, law_answered_enumeration, Ask, Enumeration,
    EnumerationPhase, EnumerationView,
};
use crate::hid::name::{
    chunk_bytes, fallback_name, law_answered_name, name_of, name_replies, NamePhase, NameRead,
    NameView, DEVICE_NAME,
};
use crate::hid::protocol::{lowest_millivolts, ShortMsg};
use crate::model::{BatteryState, BatteryView};
use crate::text::{
    decimal, hex_digits, law_decimal_injective, law_decimal_value, law_hex_digits_injective,
    law_hex_digits_len, law_hex_digits_value, number_of, push_decimal, push_hex, UPPER,
};
use std::collections::HashMap;
use vstd::prelude::*;

verus! {

broadcast use vstd::std_specs::hash::group_hash_axioms;

/// The key of a device: the receiver's product id and the slot, as "PID:slot".
pub open spec fn device_key_text(pid: u16, slot: u8) -> Seq<char> {
    hex_digits(pid as nat, 4, UPPER) + ":"@ + decimal(slot as nat)
}

/// The key of a device: the receiver's product id and the slot, as "PID:slot".
pub fn device_key(pid: u16, slot: u8) -> (key: String)
    ensures
        key@ == device_key_text(pid, slot),
{
    let mut key: String = String::new();
    push_hex(&mut key, pid as u64, 4, UPPER);
    key.append(":");
    push_decimal(&mut key, slot as u64);
    key
}

/// What never changes while a device stays paired: its battery feature and table
/// index (none for a device without one), and its display name.
#[derive(Debug)]
pub struct DeviceCache {
    pub battery: Option<(u16, u8)>,
    pub display_name: String,
}

/// A cache entry as plain values.
pub struct EntryView {
    pub battery: Option<(u16, u8)>,
    pub display_name: Seq<char>,
}

impl View for DeviceCache {
    type V = EntryView;

    open spec fn view(&self) -> EntryView {
        EntryView { battery: self.battery, display_name: self.display_name@ }
    }
}

/// The number under which a device is cached.
pub open spec fn cache_key(pid: u16, slot: u8) -> u32 {
    (pid * 256 + slot) as u32
}

fn cache_number(pid: u16, slot: u8) -> (key: u32)
    ensures
        key == cache_key(pid, slot),
{
    pid as u32 * 256 + slot as u32
}

/// What is known of the devices of a receiver, by receiver and slot.
#[derive(Debug)]
pub struct FeatureCache {
    pub devices: HashMap<u32, DeviceCache>,
}

impl View for FeatureCache {
    type V = Map<u32, EntryView>;

    open spec fn view(&self) -> Map<u32, EntryView> {
        self.devices@.map_values(|entry: DeviceCache| entry@)
    }
}

impl FeatureCache {
    /// An empty cache.
    pub fn new() -> (cache: Self)
        ensures
            cache@ == Map::<u32, EntryView>::empty(),
    {
        let cache: FeatureCache = FeatureCache { devices: HashMap::new() };
        assert(cache@ =~= Map::<u32, EntryView>::empty());
        cache
    }

    /// What is known of a device.
    pub fn get(&self, pid: u16, slot: u8) -> (entry: Option<&DeviceCache>)
        ensures
            entry is Some <==> self@.contains_key(cache_key(pid, slot)),
            entry matches Some(e) ==> e@ == self@[cache_key(pid, slot)],
    {
        self.devices.get(&cache_number(pid, slot))
    }

    /// Keep what is known of a device.
    pub fn insert(&mut self, pid: u16, slot: u8, entry: DeviceCache)
        ensures
            final(self)@ == old(self)@.insert(cache_key(pid, slot), entry@),
    {
        let ghost view = entry@;
        self.devices.insert(cache_number(pid, slot), entry);
        assert(self@ =~= old(self)@.insert(cache_key(pid, slot), view));
    }
}

/// Where a device read stands.
#[derive(Debug)]
pub enum ReadPhase {
    /// A persisted profile is checked with a battery read.
    Profile { feature_id: u16, feature_idx: u8, name: String },
    /// The device's features are enumerated.
    Features(Enumeration),
    /// The battery feature is known; the name is read.
    Name { feature_id: u16, feature_idx: u8, read: NameRead },
    /// The battery is read.
    Battery { feature_id: u16, feature_idx: u8, name: String },
    /// The read ended. A device without a battery feature has no state.
    Done(Result<Option<BatteryState>, HidError>),
}

/// The phase of a device read as plain values.
#[verifier::ext_equal]
pub enum ReadPhaseView {
    Profile { feature_id: u16, feature_idx: u8, name: Seq<char> },
    Features(EnumerationView),
    Name { feature_id: u16, feature_idx: u8, read: NameView },
    Battery { feature_id: u16, feature_idx: u8, name: Seq<char> },
    Done(Result<Option<BatteryView>, HidError>),
}

impl View for ReadPhase {
    type V = ReadPhaseView;

    open spec fn view(&self) -> ReadPhaseView {
        match *self {
            ReadPhase::Profile { feature_id, feature_idx, name } => ReadPhaseView::Profile {
                feature_id,
                feature_idx,
                name: name@,
            },
            ReadPhase::Features(enumeration) => ReadPhaseView::Features(enumeration@),
            ReadPhase::Name { feature_id, feature_idx, read } => ReadPhaseView::Name {
                feature_id,
                feature_idx,
                read: read@,
            },
            ReadPhase::Battery { feature_id, feature_idx, name } => ReadPhaseView::Battery {
                feature_id,
                feature_idx,
                name: name@,
            },
            ReadPhase::Done(result) => ReadPhaseView::Done(outcome_view(result)),
        }
    }
}

/// The outcome of a device read as plain values.
pub open spec fn outcome_view(result: Result<Option<BatteryState>, HidError>) -> Result<
    Option<BatteryView>,
    HidError,
> {
    match result {
        Ok(Some(state)) => Ok(Some(state@)),
        Ok(None) => Ok(None),
        Err(err) => Err(err),
    }
}

/// The reading of the device at `slot` of receiver `pid`. `wpid` is its wireless
/// product id, 0 where that is not known.
#[derive(Debug)]
pub struct DeviceRead {
    pub pid: u16,
    pub slot: u8,
    pub wpid: u16,
    pub phase: ReadPhase,
}

/// A device read as plain values.
#[verifier::ext_equal]
pub struct ReadView {
    pub pid: u16,
    pub slot: u8,
    pub wpid: u16,
    pub phase: ReadPhaseView,
}

impl View for DeviceRead {
    type V = ReadView;

    open spec fn view(&self) -> ReadView {
        ReadView { pid: self.pid, slot: self.slot, wpid: self.wpid, phase: self.phase@ }
    }
}

/// What device reads remember: the cache and the profiles.
#[verifier::ext_equal]
pub struct Memory {
    pub cache: Map<u32, EntryView>,
    pub profiles: Map<u16, ProfileView>,
}

/// What is remembered in a cache and a set of profiles.
pub open spec fn memory(cache: FeatureCache, profiles: DeviceProfiles) -> Memory {
    Memory { cache: cache@, profiles: profiles@ }
}

/// The value of `features` for the name feature, if it is there.
pub open spec fn name_index(features: Map<u16, u8>) -> Option<u8> {
    if features.contains_key(DEVICE_NAME) {
        Some(features[DEVICE_NAME])
    } else {
        None
    }
}

impl ReadView {
    /// This read in another phase.
    pub open spec fn at(self, phase: ReadPhaseView) -> ReadView {
        ReadView { phase, ..self }
    }

    /// The phase that reads the battery of a device of which `entry` is known.
    pub open spec fn battery_phase(entry: EntryView) -> ReadPhaseView {
        match entry.battery {
            None => ReadPhaseView::Done(Ok(None)),
            Some((feature_id, feature_idx)) => if supported_battery(feature_id) {
                ReadPhaseView::Battery { feature_id, feature_idx, name: entry.display_name }
            } else {
                ReadPhaseView::Done(Err(HidError::UnsupportedBattery { feature_id }))
            },
        }
    }

    /// The start of a read: from the cache where the device is known, else through
    /// its profile where there is one, else by enumeration.
    pub open spec fn start(pid: u16, slot: u8, wpid: u16, mem: Memory) -> ReadView {
        let phase = if mem.cache.contains_key(cache_key(pid, slot)) {
            ReadView::battery_phase(mem.cache[cache_key(pid, slot)])
        } else if wpid != 0 && mem.profiles.contains_key(wpid) && supported_battery(
            mem.profiles[wpid].battery_feature_id,
        ) {
            ReadPhaseView::Profile {
                feature_id: mem.profiles[wpid].battery_feature_id,
                feature_idx: mem.profiles[wpid].battery_feature_index,
                name: mem.profiles[wpid].name,
            }
        } else {
            ReadPhaseView::Features(EnumerationView::start(slot))
        };
        ReadView { pid, slot, wpid, phase }
    }

    /// What the parts of the read keep, and that a battery is asked for only through
    /// a feature that has one.
    pub open spec fn wf(self) -> bool {
        match self.phase {
            ReadPhaseView::Profile { feature_id, .. } => supported_battery(feature_id),
            ReadPhaseView::Features(enumeration) => enumeration.wf() && !enumeration.over()
                && enumeration.slot == self.slot,
            ReadPhaseView::Name { feature_id, read, .. } => supported_battery(feature_id)
                && read.wf() && !read.over() && read.slot == self.slot,
            ReadPhaseView::Battery { feature_id, .. } => supported_battery(feature_id),
            ReadPhaseView::Done(_) => true,
        }
    }

    pub open spec fn over(self) -> bool {
        self.phase is Done
    }

    /// The request that is due, if any.
    pub open spec fn ask(self) -> Option<Ask> {
        match self.phase {
            ReadPhaseView::Profile { feature_id, feature_idx, .. } => plain_ask(
                battery_msg(self.slot, feature_id, feature_idx),
            ),
            ReadPhaseView::Features(enumeration) => enumeration.ask(),
            ReadPhaseView::Name { read, .. } => match read.ask() {
                Some(msg) => Some(Ask { msg, pause_ms: 0 }),
                None => None,
            },
            ReadPhaseView::Battery { feature_id, feature_idx, .. } => plain_ask(
                battery_msg(self.slot, feature_id, feature_idx),
            ),
            ReadPhaseView::Done(_) => None,
        }
    }

    /// The read goes on with what was learned of the device, which is kept.
    pub open spec fn learned(self, mem: Memory, entry: EntryView) -> (ReadView, Memory) {
        (
            self.at(ReadView::battery_phase(entry)),
            Memory { cache: mem.cache.insert(cache_key(self.pid, self.slot), entry), ..mem },
        )
    }

    /// The read goes on with an enumerated battery feature and the device's name. A
    /// profile is kept for a device whose wireless product id is known.
    pub open spec fn named(self, mem: Memory, battery: (u16, u8), name: Seq<char>) -> (
        ReadView,
        Memory,
    ) {
        let profile = ProfileView {
            battery_feature_id: battery.0,
            battery_feature_index: battery.1,
            name,
        };
        let profiles = if self.wpid != 0 {
            mem.profiles.insert(self.wpid, profile)
        } else {
            mem.profiles
        };
        self.learned(
            Memory { profiles, ..mem },
            EntryView { battery: Some(battery), display_name: name },
        )
    }

    /// The read goes on after its enumeration changed.
    pub open spec fn enumerated(self, mem: Memory, enumeration: EnumerationView) -> (
        ReadView,
        Memory,
    ) {
        match enumeration.phase {
            EnumerationPhase::Failed(err) => (self.at(ReadPhaseView::Done(Err(err))), mem),
            EnumerationPhase::Done => match preferred_battery(enumeration.features) {
                None => self.learned(mem, EntryView { battery: None, display_name: Seq::empty() }),
                Some(battery) => self.naming(
                    mem,
                    battery,
                    NameView::start(self.slot, name_index(enumeration.features)),
                ),
            },
            _ => (self.at(ReadPhaseView::Features(enumeration)), mem),
        }
    }

    /// The read goes on after the reading of the name changed.
    pub open spec fn naming(self, mem: Memory, battery: (u16, u8), read: NameView) -> (
        ReadView,
        Memory,
    ) {
        if read.over() {
            self.named(mem, battery, read.name())
        } else {
            (
                self.at(
                    ReadPhaseView::Name { feature_id: battery.0, feature_idx: battery.1, read },
                ),
                mem,
            )
        }
    }

    /// The battery state in a reply to the battery request.
    pub open spec fn state_of(self, feature_id: u16, name: Seq<char>, header: [u8; 7]) -> Result<
        Option<BatteryView>,
        HidError,
    > {
        match battery_reading(feature_id, header) {
            Ok((battery_percent, is_charging)) => Ok(
                Some(
                    BatteryView {
                        device_key: device_key_text(self.pid, self.slot),
                        display_name: name,
                        pid: self.pid,
                        device_index: self.slot,
                        battery_percent,
                        is_charging,
                    },
                ),
            ),
            Err(err) => Err(err),
        }
    }

    /// The read, and what is remembered, after the reply to the request that was due.
    pub open spec fn after_reply(self, mem: Memory, reply: Reply) -> (ReadView, Memory) {
        match self.phase {
            ReadPhaseView::Profile { feature_id, feature_idx, name } => if reply is Ok {
                self.learned(
                    mem,
                    EntryView { battery: Some((feature_id, feature_idx)), display_name: name },
                )
            } else {
                // The profile is stale.
                (self.at(ReadPhaseView::Features(EnumerationView::start(self.slot))), mem)
            },
            ReadPhaseView::Features(enumeration) => self.enumerated(
                mem,
                enumeration.after_reply(reply),
            ),
            ReadPhaseView::Name { feature_id, feature_idx, read } => self.naming(
                mem,
                (feature_id, feature_idx),
                read.after_reply(reply),
            ),
            ReadPhaseView::Battery { feature_id, feature_idx, name } => (
                self.at(
                    ReadPhaseView::Done(
                        match reply {
                            Ok(header) => self.state_of(feature_id, name, header),
                            Err(err) => Err(err),
                        },
                    ),
                ),
                mem,
            ),
            ReadPhaseView::Done(_) => (self, mem),
        }
    }
}

/// A request without a pause, if there is one.
pub open spec fn plain_ask(msg: Result<ShortMsg, HidError>) -> Option<Ask> {
    match msg {
        Ok(msg) => Some(Ask { msg, pause_ms: 0 }),
        Err(_) => None,
    }
}

fn is_supported(feature_id: u16) -> (supported: bool)
    ensures
        supported == supported_battery(feature_id),
{
    matches!(feature_id, 0x1000 | 0x1001 | 0x1004)
}

fn ask_plainly(msg: Result<ShortMsg, HidError>) -> (ask: Option<Ask>)
    ensures
        ask == plain_ask(msg),
{
    match msg {
        Ok(msg) => Some(Ask { msg, pause_ms: 0 }),
        Err(_) => None,
    }
}

fn battery_phase(battery: Option<(u16, u8)>, name: String) -> (phase: ReadPhase)
    ensures
        phase@ == ReadView::battery_phase(EntryView { battery, display_name: name@ }),
{
    match battery {
        None => ReadPhase::Done(Ok(None)),
        Some((feature_id, feature_idx)) => {
            if is_supported(feature_id) {
                ReadPhase::Battery { feature_id, feature_idx, name }
            } else {
                ReadPhase::Done(Err(HidError::UnsupportedBattery { feature_id }))
            }
        },
    }
}

impl DeviceRead {
    /// Start reading the device at `slot` of receiver `pid`.
    pub fn start(
        pid: u16,
        slot: u8,
        wpid: u16,
        cache: &FeatureCache,
        profiles: &DeviceProfiles,
    ) -> (read: DeviceRead)
        ensures
            read@ == ReadView::start(pid, slot, wpid, memory(*cache, *profiles)),
            read@.wf(),
    {
        if let Some(entry) = cache.get(pid, slot) {
            return DeviceRead {
                pid,
                slot,
                wpid,
                phase: battery_phase(entry.battery, entry.display_name.clone()),
            };
        }
        if wpid != 0 {
            if let Some(profile) = profiles.get(wpid) {
                if is_supported(profile.battery_feature_id) {
                    return DeviceRead {
                        pid,
                        slot,
                        wpid,
                        phase: ReadPhase::Profile {
                            feature_id: profile.battery_feature_id,
                            feature_idx: profile.battery_feature_index,
                            name: profile.name.clone(),
                        },
                    };
                }
            }
        }
        DeviceRead { pid, slot, wpid, phase: ReadPhase::Features(Enumeration::start(slot)) }
    }

    /// The request that is due, if any.
    pub fn ask(&self) -> (ask: Option<Ask>)
        ensures
            ask == self@.ask(),
    {
        match &self.phase {
            ReadPhase::Profile { feature_id, feature_idx, .. } => ask_plainly(
                battery_request(self.slot, *feature_id, *feature_idx),
            ),
            ReadPhase::Features(enumeration) => enumeration.ask(),
            ReadPhase::Name { read, .. } => match read.ask() {
                Some(msg) => Some(Ask { msg, pause_ms: 0 }),
                None => None,
            },
            ReadPhase::Battery { feature_id, feature_idx, .. } => ask_plainly(
                battery_request(self.slot, *feature_id, *feature_idx),
            ),
            ReadPhase::Done(_) => None,
        }
    }

    fn learn(&mut self, cache: &mut FeatureCache, battery: Option<(u16, u8)>, name: String)
        ensures
            final(self)@ == old(self)@.at(
                ReadView::battery_phase(EntryView { battery, display_name: name@ }),
            ),
            final(cache)@ == old(cache)@.insert(
                cache_key(old(self).pid, old(self).slot),
                EntryView { battery, display_name: name@ },
            ),
    {
        cache.insert(self.pid, self.slot, DeviceCache { battery, display_name: name.clone() });
        self.phase = battery_phase(battery, name);
    }

    fn on_name(
        &mut self,
        cache: &mut FeatureCache,
        profiles: &mut DeviceProfiles,
        feature_id: u16,
        feature_idx: u8,
        read: NameRead,
    )
        ensures
            (final(self)@, memory(*final(cache), *final(profiles))) == old(self)@.naming(
                memory(*old(cache), *old(profiles)),
                (feature_id, feature_idx),
                read@,
            ),
    {
        match read.phase {
            NamePhase::Done | NamePhase::Failed(_) => {
                let name: String = read.name();
                // Kept so that the next read can skip the enumeration.
                if self.wpid != 0 {
                    let changed: bool = profiles.upsert(
                        self.wpid,
                        DeviceProfile {
                            battery_feature_id: feature_id,
                            battery_feature_index: feature_idx,
                            name: name.clone(),
                        },
                    );
                    if changed {
                        let _ = save_device_profiles(profiles);
                    }
                }
                self.learn(cache, Some((feature_id, feature_idx)), name);
            },
            _ => {
                self.phase = ReadPhase::Name { feature_id, feature_idx, read };
            },
        }
    }

    fn on_features(
        &mut self,
        cache: &mut FeatureCache,
        profiles: &mut DeviceProfiles,
        enumeration: Enumeration,
    )
        ensures
            (final(self)@, memory(*final(cache), *final(profiles))) == old(self)@.enumerated(
                memory(*old(cache), *old(profiles)),
                enumeration@,
            ),
    {
        match enumeration.phase {
            EnumerationPhase::Failed(err) => {
                self.phase = ReadPhase::Done(Err(err));
            },
            EnumerationPhase::Done => match pick_battery(&enumeration.features) {
                None => self.learn(cache, None, String::new()),
                Some((feature_id, feature_idx)) => {
                    let name_idx: Option<u8> = match enumeration.features.get(&DEVICE_NAME) {
                        Some(idx) => Some(*idx),
                        None => None,
                    };
                    let read: NameRead = NameRead::start(self.slot, name_idx);
                    self.on_name(cache, profiles, feature_id, feature_idx, read);
                },
            },
            _ => {
                self.phase = ReadPhase::Features(enumeration);
            },
        }
    }

    /// The reply to the request that was due has come, or the request failed.
    pub fn on_reply(
        &mut self,
        cache: &mut FeatureCache,
        profiles: &mut DeviceProfiles,
        reply: Reply,
    )
        ensures
            (final(self)@, memory(*final(cache), *final(profiles))) == old(self)@.after_reply(
                memory(*old(cache), *old(profiles)),
                reply,
            ),
            old(self)@.wf() ==> final(self)@.wf(),
    {
        let mut phase: ReadPhase = ReadPhase::Done(Ok(None));
        std::mem::swap(&mut phase, &mut self.phase);
        match phase {
            ReadPhase::Profile { feature_id, feature_idx, name } => {
                if reply.is_ok() {
                    self.learn(cache, Some((feature_id, feature_idx)), name);
                } else {
                    self.phase = ReadPhase::Features(Enumeration::start(self.slot));
                }
            },
            ReadPhase::Features(enumeration) => {
                let mut enumeration: Enumeration = enumeration;
                enumeration.on_reply(reply);
                self.on_features(cache, profiles, enumeration);
            },
            ReadPhase::Name { feature_id, feature_idx, read } => {
                let mut read: NameRead = read;
                read.on_reply(reply);
                self.on_name(cache, profiles, feature_id, feature_idx, read);
            },
            ReadPhase::Battery { feature_id, name, .. } => {
                let result: Result<Option<BatteryState>, HidError> = match reply {
                    Ok(header) => match read_battery(feature_id, &header) {
                        Ok((battery_percent, is_charging)) => Ok(
                            Some(
                                BatteryState {
                                    device_key: device_key(self.pid, self.slot),
                                    display_name: name,
                                    pid: self.pid,
                                    device_index: self.slot,
                                    battery_percent,
                                    is_charging,
                                },
                            ),
                        ),
                        Err(err) => Err(err),
                    },
                    Err(err) => Err(err),
                };
                self.phase = ReadPhase::Done(result);
            },
            ReadPhase::Done(result) => {
                self.phase = ReadPhase::Done(result);
            },
        }
    }
}

impl ReadView {
    /// The read, and what is remembered, after a series of replies.
    pub open spec fn after_replies(self, mem: Memory, replies: Seq<Reply>) -> (ReadView, Memory)
        decreases replies.len(),
    {
        if replies.len() == 0 {
            (self, mem)
        } else {
            let (read, mem) = self.after_replies(mem, replies.drop_last());
            read.after_reply(mem, replies.last())
        }
    }

    /// At most this many replies are still asked for.
    pub open spec fn replies_left(self) -> nat {
        match self.phase {
            ReadPhaseView::Profile { .. } => 1 + 3 * 257 + 256 + 1,
            ReadPhaseView::Features(enumeration) => enumeration.replies_left() + 256 + 1,
            ReadPhaseView::Name { read, .. } => read.replies_left() + 1,
            ReadPhaseView::Battery { .. } => 1,
            ReadPhaseView::Done(_) => 0,
        }
    }
}

/// Two devices with the same key are the same slot of receivers with the same product
/// id.
pub proof fn law_device_key_injective(pid_a: u16, slot_a: u8, pid_b: u16, slot_b: u8)
    requires
        device_key_text(pid_a, slot_a) == device_key_text(pid_b, slot_b),
    ensures
        pid_a == pid_b,
        slot_a == slot_b,
{
    reveal_strlit(":");
    let a = device_key_text(pid_a, slot_a);
    let b = device_key_text(pid_b, slot_b);
    law_hex_digits_len(pid_a as nat, 4, UPPER);
    law_hex_digits_len(pid_b as nat, 4, UPPER);
    assert(a.take(4) =~= hex_digits(pid_a as nat, 4, UPPER));
    assert(b.take(4) =~= hex_digits(pid_b as nat, 4, UPPER));
    assert(a.skip(5) =~= decimal(slot_a as nat));
    assert(b.skip(5) =~= decimal(slot_b as nat));
    reveal_with_fuel(vstd::arithmetic::power::pow, 5);
    law_hex_digits_injective(pid_a as nat, pid_b as nat, 4, UPPER);
    law_decimal_injective(slot_a as nat, slot_b as nat);
}

/// Two devices are cached under the same number exactly where they have the same key.
pub proof fn law_cache_key_injective(pid_a: u16, slot_a: u8, pid_b: u16, slot_b: u8)
    ensures
        cache_key(pid_a, slot_a) == cache_key(pid_b, slot_b) <==> device_key_text(pid_a, slot_a)
            == device_key_text(pid_b, slot_b),
{
    if device_key_text(pid_a, slot_a) == device_key_text(pid_b, slot_b) {
        law_device_key_injective(pid_a, slot_a, pid_b, slot_b);
    }
}

/// A cached device is read with one request, and its reply is the reading: nothing is
/// enumerated and nothing that is remembered changes.
pub proof fn law_cached_read(pid: u16, slot: u8, wpid: u16, mem: Memory, reply: Reply)
    requires
        mem.cache.contains_key(cache_key(pid, slot)),
        mem.cache[cache_key(pid, slot)].battery matches Some((id, idx)) && supported_battery(id),
    ensures
        ({
            let start = ReadView::start(pid, slot, wpid, mem);
            let entry = mem.cache[cache_key(pid, slot)];
            let (id, idx) = entry.battery->0;
            let (end, after) = start.after_reply(mem, reply);
            &&& start.ask() == plain_ask(battery_msg(slot, id, idx))
            &&& end.phase == ReadPhaseView::Done(
                match reply {
                    Ok(header) => start.state_of(id, entry.display_name, header),
                    Err(err) => Err(err),
                },
            )
            &&& after == mem
        }),
{
}

/// A device that is cached as one without a battery is not asked anything.
pub proof fn law_cached_without_battery(pid: u16, slot: u8, wpid: u16, mem: Memory)
    requires
        mem.cache.contains_key(cache_key(pid, slot)),
        mem.cache[cache_key(pid, slot)].battery is None,
    ensures
        ReadView::start(pid, slot, wpid, mem).phase == ReadPhaseView::Done(Ok(None)),
        ReadView::start(pid, slot, wpid, mem).ask() is None,
{
}

/// A device with a profile that still works is read with two battery requests and no
/// enumeration: the first confirms the profile, which is then cached, the second is
/// the reading. The profiles stay as they are.
pub proof fn law_profile_read(
    pid: u16,
    slot: u8,
    wpid: u16,
    mem: Memory,
    first: [u8; 7],
    second: [u8; 7],
)
    requires
        !mem.cache.contains_key(cache_key(pid, slot)),
        wpid != 0,
        mem.profiles.contains_key(wpid),
        supported_battery(mem.profiles[wpid].battery_feature_id),
    ensures
        ({
            let profile = mem.profiles[wpid];
            let id = profile.battery_feature_id;
            let idx = profile.battery_feature_index;
            let start = ReadView::start(pid, slot, wpid, mem);
            let (mid, kept) = start.after_reply(mem, Ok(first));
            let (end, after) = mid.after_reply(kept, Ok(second));
            &&& start.ask() == plain_ask(battery_msg(slot, id, idx))
            &&& mid.ask() == plain_ask(battery_msg(slot, id, idx))
            &&& end.phase == ReadPhaseView::Done(start.state_of(id, profile.name, second))
            &&& after.profiles == mem.profiles
            &&& after.cache == mem.cache.insert(
                cache_key(pid, slot),
                EntryView { battery: Some((id, idx)), display_name: profile.name },
            )
        }),
{
}

/// A profile whose feature no longer answers is given up: the device is enumerated as
/// if there were none.
pub proof fn law_stale_profile(
    pid: u16,
    slot: u8,
    wpid: u16,
    mem: Memory,
    err: HidError,
)
    requires
        ReadView::start(pid, slot, wpid, mem).phase is Profile,
    ensures
        ReadView::start(pid, slot, wpid, mem).after_reply(mem, Err(err)) == (
            ReadView {
                pid,
                slot,
                wpid,
                phase: ReadPhaseView::Features(EnumerationView::start(slot)),
            },
            mem,
        ),
{
}

/// A read changes what is remembered of its own device only, and a device whose
/// wireless product id is not known leaves no profile.
pub proof fn law_read_touches_own_device(read: ReadView, mem: Memory, reply: Reply, key: u32, id: u16)
    ensures
        ({
            let (_, after) = read.after_reply(mem, reply);
            &&& key != cache_key(read.pid, read.slot) ==> (after.cache.contains_key(key)
                == mem.cache.contains_key(key) && after.cache[key] == mem.cache[key])
            &&& id != read.wpid ==> (after.profiles.contains_key(id) == mem.profiles.contains_key(id)
                && after.profiles[id] == mem.profiles[id])
            &&& read.wpid == 0 ==> after.profiles == mem.profiles
        }),
{
}

/// A read that fails leaves no trace: what is remembered is what was remembered
/// before the reply that ended it.
pub proof fn law_failed_read_remembers_nothing(read: ReadView, mem: Memory, reply: Reply)
    requires
        read.wf(),
        read.after_reply(mem, reply).0.phase matches ReadPhaseView::Done(Err(err)),
    ensures
        read.after_reply(mem, reply).1 == mem,
{
}

/// Every reply brings a read closer to its end, so that it ends after a bounded number
/// of requests, and a reply is asked for exactly until then.
pub proof fn law_read_progress(read: ReadView, mem: Memory, reply: Reply)
    requires
        read.wf(),
    ensures
        read.after_reply(mem, reply).0.wf(),
        !read.over() ==> read.after_reply(mem, reply).0.replies_left() < read.replies_left(),
        read.replies_left() <= 1 + 3 * 257 + 256 + 1,
        read.over() <==> read.ask() is None,
        read.over() ==> read.after_reply(mem, reply) == (read, mem),
{
}

/// A state that was read is that of the device that was asked.
pub proof fn law_state_names_its_device(read: ReadView, mem: Memory, reply: Reply)
    requires
        !read.over(),
    ensures
        read.after_reply(mem, reply).0.phase matches ReadPhaseView::Done(Ok(Some(state)))
            ==> state.pid == read.pid && state.device_index == read.slot && state.device_key
            == device_key_text(read.pid, read.slot),
{
}

/// While the entries of an answering device come in, a read only enumerates.
proof fn lemma_enumerating(
    read: ReadView,
    mem: Memory,
    start: EnumerationView,
    root: [u8; 7],
    count: [u8; 7],
    entries: Seq<[u8; 7]>,
)
    requires
        read.phase == ReadPhaseView::Features(start),
        start.phase is Root,
        root[4] != 0,
        entries.len() < count[4],
    ensures
        read.after_replies(mem, good_replies(root, count, entries)) == (
            read.at(
                ReadPhaseView::Features(start.after_replies(good_replies(root, count, entries))),
            ),
            mem,
        ),
    decreases entries.len(),
{
    law_answered_enumeration(start, root, count, entries);
    let replies = good_replies(root, count, entries);
    if entries.len() == 0 {
        let first = seq![Ok::<[u8; 7], HidError>(root)];
        assert(replies.drop_last() =~= first);
        assert(first.drop_last() =~= Seq::<Reply>::empty());
        assert(read.after_replies(mem, Seq::empty()) == (read, mem));
        assert(start.after_replies(Seq::empty()) == start);
        assert(start.after_replies(first) == start.after_reply(Ok(root)));
        assert(read.after_replies(mem, first) == read.after_reply(mem, Ok(root)));
    } else {
        let before = entries.drop_last();
        lemma_enumerating(read, mem, start, root, count, before);
        assert(replies.drop_last() =~= good_replies(root, count, before));
    }
}

/// While the name of an answering device comes in, a read only reads the name.
proof fn lemma_naming(
    read: ReadView,
    mem: Memory,
    battery: (u16, u8),
    name_idx: u8,
    length: [u8; 7],
    chunks: Seq<[u8; 7]>,
)
    requires
        read.phase == (ReadPhaseView::Name {
            feature_id: battery.0,
            feature_idx: battery.1,
            read: NameView::start(read.slot, Some(name_idx)),
        }),
        3 * chunks.len() < length[4],
    ensures
        read.after_replies(mem, name_replies(length, chunks)) == (
            read.at(
                ReadPhaseView::Name {
                    feature_id: battery.0,
                    feature_idx: battery.1,
                    read: NameView::start(read.slot, Some(name_idx)).after_replies(
                        name_replies(length, chunks),
                    ),
                },
            ),
            mem,
        ),
    decreases chunks.len(),
{
    let start = NameView::start(read.slot, Some(name_idx));
    law_answered_name(read.slot, name_idx, length, chunks);
    let replies = name_replies(length, chunks);
    if chunks.len() == 0 {
        assert(replies.drop_last() =~= Seq::<Reply>::empty());
        assert(read.after_replies(mem, Seq::empty()) == (read, mem));
        assert(start.after_replies(Seq::empty()) == start);
    } else {
        let before = chunks.drop_last();
        lemma_naming(read, mem, battery, name_idx, length, before);
        assert(replies.drop_last() =~= name_replies(length, before));
    }
}

/// An unknown device that answers every enumeration request is recognised by the
/// features it lists: one without a battery feature is remembered as such, one with a
/// battery feature goes on to its name.
pub proof fn law_enumerated_read(
    pid: u16,
    slot: u8,
    wpid: u16,
    mem: Memory,
    root: [u8; 7],
    count: [u8; 7],
    entries: Seq<[u8; 7]>,
)
    requires
        ReadView::start(pid, slot, wpid, mem).phase is Features,
        root[4] != 0,
        entries.len() == count[4],
    ensures
        ({
            let start = ReadView::start(pid, slot, wpid, mem);
            let features = feature_table(root[4], ids_of(entries));
            let end = start.after_replies(mem, good_replies(root, count, entries));
            match preferred_battery(features) {
                None => end == start.learned(
                    mem,
                    EntryView { battery: None, display_name: Seq::empty() },
                ),
                Some(battery) => end == start.naming(
                    mem,
                    battery,
                    NameView::start(slot, name_index(features)),
                ),
            }
        }),
{
    let start = ReadView::start(pid, slot, wpid, mem);
    let first = EnumerationView::start(slot);
    let replies = good_replies(root, count, entries);
    law_answered_enumeration(first, root, count, entries);
    if entries.len() == 0 {
        let one = seq![Ok::<[u8; 7], HidError>(root)];
        assert(replies.drop_last() =~= one);
        assert(one.drop_last() =~= Seq::<Reply>::empty());
        assert(start.after_replies(mem, Seq::empty()) == (start, mem));
        assert(first.after_replies(Seq::empty()) == first);
        assert(first.after_replies(one) == first.after_reply(Ok(root)));
        assert(start.after_replies(mem, one) == start.after_reply(mem, Ok(root)));
    } else {
        let before = entries.drop_last();
        lemma_enumerating(start, mem, first, root, count, before);
        assert(replies.drop_last() =~= good_replies(root, count, before));
    }
}

/// A device whose battery feature is known and that answers every request for its name
/// is remembered under that name, cut to the length it told, and its battery is read
/// next.
pub proof fn law_named_read(
    read: ReadView,
    mem: Memory,
    battery: (u16, u8),
    name_idx: u8,
    length: [u8; 7],
    chunks: Seq<[u8; 7]>,
)
    requires
        read.phase == (ReadPhaseView::Name {
            feature_id: battery.0,
            feature_idx: battery.1,
            read: NameView::start(read.slot, Some(name_idx)),
        }),
        length[4] > 0,
        length[4] <= 3 * chunks.len() < length[4] + 3,
    ensures
        read.after_replies(mem, name_replies(length, chunks)) == read.named(
            mem,
            battery,
            name_of(chunk_bytes(chunks).take(length[4] as int)),
        ),
{
    let before = chunks.drop_last();
    let replies = name_replies(length, chunks);
    law_answered_name(read.slot, name_idx, length, chunks);
    lemma_naming(read, mem, battery, name_idx, length, before);
    assert(replies.drop_last() =~= name_replies(length, before));
}

/// A read that starts keeps the invariant, whatever is remembered, and one that is over
/// at once has no state: a battery is never reported without being asked.
pub proof fn law_started_read_is_wf(pid: u16, slot: u8, wpid: u16, mem: Memory)
    ensures
        ReadView::start(pid, slot, wpid, mem).wf(),
        ReadView::start(pid, slot, wpid, mem).phase matches ReadPhaseView::Done(outcome)
            ==> !(outcome matches Ok(Some(state))),
{
}

/// A device key reads as the product id in four upper-case hex digits, a colon and the
/// slot in decimal.
pub proof fn law_device_key_parts(pid: u16, slot: u8)
    ensures
        device_key_text(pid, slot).len() >= 6,
        number_of(device_key_text(pid, slot).take(4), 16) == pid,
        device_key_text(pid, slot)[4] == ':',
        number_of(device_key_text(pid, slot).skip(5), 10) == slot,
        forall|i: int|
            0 <= i < 4 ==> '0' <= (#[trigger] device_key_text(pid, slot)[i]) <= '9' || 'A'
                <= device_key_text(pid, slot)[i] <= 'F',
{
    reveal_strlit(":");
    reveal_with_fuel(vstd::arithmetic::power::pow, 5);
    let key = device_key_text(pid, slot);
    let digits = hex_digits(pid as nat, 4, UPPER);
    law_hex_digits_value(pid as nat, 4, UPPER);
    law_decimal_value(slot as nat);
    assert(key.take(4) =~= digits);
    assert(key.skip(5) =~= decimal(slot as nat));
    assert forall|i: int| 0 <= i < 4 implies '0' <= (#[trigger] key[i]) <= '9' || 'A' <= key[i]
        <= 'F' by {
        assert(key[i] == digits[i]);
    }
}

/// The state that a reply to the battery request shows: the percentage is byte 4, or that
/// of the voltage in bytes 4 and 5 for feature 0x1001, charging is told by byte 6, and the
/// device is the one that was asked, under the name that is known of it.
pub proof fn law_state_shows_the_reply(
    read: ReadView,
    mem: Memory,
    id: u16,
    idx: u8,
    name: Seq<char>,
    header: [u8; 7],
    percent: int,
)
    requires
        read.phase == (ReadPhaseView::Battery { feature_id: id, feature_idx: idx, name }),
        id == 0x1000 || id == 0x1001 || id == 0x1004,
        1 <= percent <= 100,
    ensures
        ({
            let (end, after) = read.after_reply(mem, Ok(header));
            let state = end.phase->Done_0->Ok_0->0;
            &&& after == mem
            &&& end.phase is Done
            &&& end.phase->Done_0 is Ok
            &&& end.phase->Done_0->Ok_0 is Some
            &&& state.display_name == name
            &&& state.pid == read.pid
            &&& state.device_index == read.slot
            &&& state.device_key == device_key_text(read.pid, read.slot)
            &&& id != 0x1001 ==> state.battery_percent == header[4]
            &&& id != 0x1001 ==> (state.is_charging <==> header[6] == 1 || header[6] == 2
                || header[6] == 4)
            &&& id == 0x1001 ==> (state.battery_percent >= percent <==> header[4] * 256 + header[5]
                >= lowest_millivolts()[percent - 1])
            &&& id == 0x1001 ==> (state.is_charging <==> header[6] & 0x80 != 0 && header[6] & 0x07
                != 2)
        }),
{
    if id == 0x1001 {
        law_voltage_is_bytes_four_and_five(header, percent);
    } else {
        law_percentage_is_byte_four(id, header, header);
    }
}

/// A battery read whose request fails ends with that very error.
pub proof fn law_battery_error_is_passed_on(
    read: ReadView,
    mem: Memory,
    id: u16,
    idx: u8,
    name: Seq<char>,
    err: HidError,
)
    requires
        read.phase == (ReadPhaseView::Battery { feature_id: id, feature_idx: idx, name }),
    ensures
        read.after_reply(mem, Err(err)).0.phase == ReadPhaseView::Done(Err(err)),
        read.after_reply(mem, Err(err)).1 == mem,
{
}

/// Where a read gets its features from: what is cached of the device goes before its
/// profile, which is used only for a wireless product id other than 0 and a battery
/// feature that can be read; else the device is enumerated.
pub proof fn law_read_source(pid: u16, slot: u8, wpid: u16, mem: Memory)
    ensures
        ({
            let start = ReadView::start(pid, slot, wpid, mem);
            let cached = mem.cache.contains_key(cache_key(pid, slot));
            let entry = mem.cache[cache_key(pid, slot)];
            let profile = mem.profiles[wpid];
            let known = wpid != 0 && mem.profiles.contains_key(wpid) && (
            profile.battery_feature_id == 0x1000 || profile.battery_feature_id == 0x1001
                || profile.battery_feature_id == 0x1004);
            &&& start.pid == pid
            &&& start.slot == slot
            &&& start.wpid == wpid
            &&& cached ==> start.phase == ReadView::battery_phase(entry)
            &&& !cached && known ==> start.phase == (ReadPhaseView::Profile {
                feature_id: profile.battery_feature_id,
                feature_idx: profile.battery_feature_index,
                name: profile.name,
            })
            &&& !cached && !known ==> start.phase == ReadPhaseView::Features(
                EnumerationView::start(slot),
            )
        }),
{
}

/// How a battery is read of which the feature is known: through it where it is 0x1000,
/// 0x1001 or 0x1004; any other is refused, and without one there is nothing to read.
pub proof fn law_battery_phase(id: u16, idx: u8, name: Seq<char>)
    ensures
        id == 0x1000 || id == 0x1001 || id == 0x1004 ==> ReadView::battery_phase(
            EntryView { battery: Some((id, idx)), display_name: name },
        ) == (ReadPhaseView::Battery { feature_id: id, feature_idx: idx, name }),
        id != 0x1000 && id != 0x1001 && id != 0x1004 ==> ReadView::battery_phase(
            EntryView { battery: Some((id, idx)), display_name: name },
        ) == ReadPhaseView::Done(Err(HidError::UnsupportedBattery { feature_id: id })),
        ReadView::battery_phase(EntryView { battery: None, display_name: name })
            == ReadPhaseView::Done(Ok(None)),
{
}

/// What is remembered of a device whose battery feature and name were read: both are
/// cached under its key, and kept as the profile of its wireless product id where that is
/// known. Its battery is read next.
pub proof fn law_named_device_is_remembered(
    read: ReadView,
    mem: Memory,
    id: u16,
    idx: u8,
    name: NameView,
)
    requires
        name.over(),
        id == 0x1000 || id == 0x1001 || id == 0x1004,
    ensures
        ({
            let (next, after) = read.naming(mem, (id, idx), name);
            let key = cache_key(read.pid, read.slot);
            &&& next == read.at(
                ReadPhaseView::Battery { feature_id: id, feature_idx: idx, name: name.name() },
            )
            &&& after.cache.contains_key(key)
            &&& after.cache[key].battery == Some((id, idx))
            &&& after.cache[key].display_name == name.name()
            &&& read.wpid != 0 ==> after.profiles.contains_key(read.wpid)
            &&& read.wpid != 0 ==> after.profiles[read.wpid].battery_feature_id == id
            &&& read.wpid != 0 ==> after.profiles[read.wpid].battery_feature_index == idx
            &&& read.wpid != 0 ==> after.profiles[read.wpid].name == name.name()
            &&& read.wpid == 0 ==> after.profiles == mem.profiles
        }),
{
}

/// What comes of a finished enumeration: a device without one of the three battery
/// features is remembered as such and has no state; of one with a battery the name is read
/// through feature 0x0005, or left at its default where that is missing.
pub proof fn law_finished_enumeration(read: ReadView, mem: Memory, enumeration: EnumerationView)
    requires
        enumeration.phase is Done,
    ensures
        ({
            let features = enumeration.features;
            let (next, after) = read.enumerated(mem, enumeration);
            let key = cache_key(read.pid, read.slot);
            let bare = !features.contains_key(0x1000) && !features.contains_key(0x1001)
                && !features.contains_key(0x1004);
            &&& bare ==> next.phase == ReadPhaseView::Done(Ok(None)) && after.cache.contains_key(
                key,
            ) && after.cache[key].battery is None && after.profiles == mem.profiles
            &&& !bare && features.contains_key(0x0005) ==> next.phase is Name && after == mem
                && next.phase->read == NameView::start(read.slot, Some(features[0x0005]))
            &&& !bare && !features.contains_key(0x0005) ==> next.phase is Battery && next.phase
                == (ReadPhaseView::Battery {
                feature_id: next.phase->Battery_feature_id,
                feature_idx: features[next.phase->Battery_feature_id],
                name: fallback_name(read.slot),
            })
        }),
{
    law_battery_preference(enumeration.features);
}

/// A failed enumeration is the outcome of the read, and nothing is remembered.
pub proof fn law_failed_enumeration(
    read: ReadView,
    mem: Memory,
    enumeration: EnumerationView,
    err: HidError,
)
    requires
        enumeration.phase == EnumerationPhase::Failed(err),
    ensures
        read.enumerated(mem, enumeration) == (read.at(ReadPhaseView::Done(Err(err))), mem),
{
}

/// A battery is asked for at the slot of the read and the index that is known, in the
/// same way for a profile as for a device that is cached.
pub proof fn law_battery_is_asked_for(read: ReadView, id: u16, idx: u8, name: Seq<char>)
    requires
        id == 0x1000 || id == 0x1001 || id == 0x1004,
    ensures
        ({
            let cached = read.at(
                ReadPhaseView::Battery { feature_id: id, feature_idx: idx, name },
            );
            let tried = read.at(ReadPhaseView::Profile { feature_id: id, feature_idx: idx, name });
            &&& cached.ask() is Some
            &&& cached.ask()->0.msg.device_index == read.slot
            &&& cached.ask()->0.msg.feature_index == idx
            &&& cached.ask()->0.msg.function_id == (if id == 0x1004 {
                1u8
            } else {
                0u8
            })
            &&& cached.ask()->0.pause_ms == 0
            &&& tried.ask() == cached.ask()
        }),
{
    law_battery_request_goes_to_the_device(read.slot, id, idx);
}

} // verus!
