//! Which receivers are plugged in, from the HID interfaces that the system lists.
//!
//! A receiver presents its HID++ command interface as two top-level collections at
//! separate device paths: usage 0x0001 (short, 0x10 reports) and usage 0x0002 (long,
//! 0x11 reports). HID++ 2.0 device traffic (ping, enumeration, battery) goes on the
//! long collection; the receiver registers and the device-connection notification
//! live on the short one. Both are kept.

use crate::hid::error::HidError;
use crate::hid::name::{from_utf8_lossy, text_of};
use crate::text::{
    before_last, chars_of, cut_at_last, digit, digit_char, hex_digits, join_text,
    law_before_last_of_joined, law_first_occurrence_goes, law_hex_digits_injective,
    law_hex_digits_len, law_hex_digits_value, law_join_then_split, law_lowered,
    law_split_then_join, law_without_absent, law_without_appended, law_without_keeps_out,
    lower_chars, lower_text, number_of, occurs_at, occurs_in, push_hex, spell, split, split_text,
    texts, without, without_text, LOWER,
};
use vstd::prelude::*;

verus! {

pub const LOGITECH_VID: u16 = 0x046D;

/// The HID++ vendor interface on Logitech receivers uses this usage page.
pub const HIDPP_USAGE_PAGE: u16 = 0xFF00;

/// HID++ usage for the long-report (0x11, 20-byte) collection.
pub const HIDPP_LONG_USAGE: u16 = 0x0002;

/// HID++ usage for the short-report (0x10, 7-byte) collection.
pub const HIDPP_SHORT_USAGE: u16 = 0x0001;

/// A HID interface as the system lists it.
#[derive(Clone, Debug)]
pub struct HidInterface {
    pub vendor_id: u16,
    pub product_id: u16,
    pub usage_page: u16,
    pub usage: u16,
    pub interface_number: i32,
    /// The device path, without a terminating NUL.
    pub path: Vec<u8>,
    pub serial: Option<String>,
    pub product: Option<String>,
}

/// A HID interface as plain values.
pub struct InterfaceView {
    pub vendor_id: u16,
    pub product_id: u16,
    pub usage_page: u16,
    pub usage: u16,
    pub interface_number: i32,
    pub path: Seq<u8>,
    pub serial: Option<Seq<char>>,
    pub product: Option<Seq<char>>,
}

/// A text that may be there, as plain values.
pub open spec fn text_view(text: Option<String>) -> Option<Seq<char>> {
    match text {
        Some(text) => Some(text@),
        None => None,
    }
}

impl View for HidInterface {
    type V = InterfaceView;

    open spec fn view(&self) -> InterfaceView {
        InterfaceView {
            vendor_id: self.vendor_id,
            product_id: self.product_id,
            usage_page: self.usage_page,
            usage: self.usage,
            interface_number: self.interface_number,
            path: self.path@,
            serial: text_view(self.serial),
            product: text_view(self.product),
        }
    }
}

/// A list of interfaces as plain values.
pub open spec fn interface_views(interfaces: Seq<HidInterface>) -> Seq<InterfaceView> {
    interfaces.map_values(|info: HidInterface| info@)
}

/// A Logitech HID++ receiver, with both vendor collections it exposes.
#[derive(Clone, Debug)]
pub struct ReceiverPath {
    pub pid: u16,
    /// Usage 0x0002: HID++ 2.0 device traffic. Always present.
    pub long_path: Vec<u8>,
    /// Usage 0x0001: receiver registers and connection notifications. Absent on
    /// receivers that expose no short vendor collection.
    pub short_path: Option<Vec<u8>>,
}

/// A receiver as plain values.
#[verifier::ext_equal]
pub struct ReceiverView {
    pub pid: u16,
    pub long_path: Seq<u8>,
    pub short_path: Option<Seq<u8>>,
}

/// A path that may be there, as plain values.
pub open spec fn path_view(path: Option<Vec<u8>>) -> Option<Seq<u8>> {
    match path {
        Some(path) => Some(path@),
        None => None,
    }
}

impl View for ReceiverPath {
    type V = ReceiverView;

    open spec fn view(&self) -> ReceiverView {
        ReceiverView {
            pid: self.pid,
            long_path: self.long_path@,
            short_path: path_view(self.short_path),
        }
    }
}

/// A list of receivers as plain values.
pub open spec fn receiver_views(receivers: Seq<ReceiverPath>) -> Seq<ReceiverView> {
    receivers.map_values(|receiver: ReceiverPath| receiver@)
}

/// The tag of collection number `k` in a path: `&col0` and a digit. The digit of the
/// last number, 10, is 0.
pub open spec fn collection_tag(k: nat) -> Seq<char> {
    "&col0"@.push(digit_char((k % 10) as int, LOWER))
}

/// The interface name in a path, without the tags of the first `k` collections, taken out
/// one after the other.
pub open spec fn untagged_to(iface: Seq<char>, k: nat) -> Seq<char>
    decreases k,
{
    if k == 0 {
        iface
    } else {
        without_text(untagged_to(iface, (k - 1) as nat), collection_tag(k))
    }
}

/// The interface name in a path, without the tags of collections.
pub open spec fn untagged(iface: Seq<char>) -> Seq<char> {
    untagged_to(iface, 10)
}

/// The key of the dongle that a device path belongs to, for a path of the shape
/// `\\?\HID#VID_046D&PID_C547&MI_02&Col01#a&215d9e4d&0&0000#{guid}`. The collections
/// of one dongle differ in the `&Col0X` tag and in what follows the last `&` of the
/// instance id; both are left out.
pub open spec fn path_key_of(path: Seq<char>) -> Option<Seq<char>> {
    let parts = split_text(lower_text(path), '#');
    if parts.len() >= 3 {
        Some(untagged(parts[1]) + "#"@ + before_last(parts[2], '&'))
    } else {
        None
    }
}

/// The key of the dongle whose path does not tell it: product id and serial number.
pub open spec fn serial_key_of(product_id: u16, serial: Option<Seq<char>>) -> Seq<char> {
    hex_digits(product_id as nat, 4, LOWER) + "|"@ + match serial {
        Some(serial) => serial,
        None => Seq::empty(),
    }
}

/// The key of the dongle that an interface belongs to.
pub open spec fn key_of(info: InterfaceView) -> Seq<char> {
    match path_key_of(text_of(info.path)) {
        Some(key) => key,
        None => serial_key_of(info.product_id, info.serial),
    }
}

/// The interface is one of the HID++ interfaces of a Logitech receiver.
pub open spec fn is_hidpp(info: InterfaceView) -> bool {
    info.vendor_id == LOGITECH_VID && info.usage_page == HIDPP_USAGE_PAGE
}

/// The interface is a HID++ interface of the dongle with this key.
pub open spec fn belongs_to(info: InterfaceView, key: Seq<char>) -> bool {
    is_hidpp(info) && key_of(info) == key
}

/// The keys of the dongles that HID++ interfaces belong to, each once, in the order
/// in which they are first listed.
pub open spec fn dongle_keys(list: Seq<InterfaceView>) -> Seq<Seq<char>>
    decreases list.len(),
{
    if list.len() == 0 {
        Seq::empty()
    } else {
        let before = dongle_keys(list.drop_last());
        if is_hidpp(list.last()) && !before.contains(key_of(list.last())) {
            before.push(key_of(list.last()))
        } else {
            before
        }
    }
}

/// The product id of the first listed interface of a dongle.
pub open spec fn first_pid(list: Seq<InterfaceView>, key: Seq<char>) -> u16
    decreases list.len(),
{
    if list.len() == 0 {
        0
    } else if belongs_to(list[0], key) {
        list[0].product_id
    } else {
        first_pid(list.skip(1), key)
    }
}

/// The path of the last listed interface of a dongle that has this usage.
pub open spec fn last_path(list: Seq<InterfaceView>, key: Seq<char>, usage: u16) -> Option<Seq<u8>>
    decreases list.len(),
{
    if list.len() == 0 {
        None
    } else if belongs_to(list.last(), key) && list.last().usage == usage {
        Some(list.last().path)
    } else {
        last_path(list.drop_last(), key, usage)
    }
}

/// The receiver that a dongle is: none where it has no long collection.
pub open spec fn receiver_at(list: Seq<InterfaceView>, key: Seq<char>) -> Option<ReceiverView> {
    match last_path(list, key, HIDPP_LONG_USAGE) {
        Some(long_path) => Some(
            ReceiverView {
                pid: first_pid(list, key),
                long_path,
                short_path: last_path(list, key, HIDPP_SHORT_USAGE),
            },
        ),
        None => None,
    }
}

/// The receivers that the dongles with these keys are.
pub open spec fn receivers_at(list: Seq<InterfaceView>, keys: Seq<Seq<char>>) -> Seq<ReceiverView>
    decreases keys.len(),
{
    if keys.len() == 0 {
        Seq::empty()
    } else {
        let before = receivers_at(list, keys.drop_last());
        match receiver_at(list, keys.last()) {
            Some(receiver) => before.push(receiver),
            None => before,
        }
    }
}

/// The receivers in a list of interfaces.
pub open spec fn receivers(list: Seq<InterfaceView>) -> Seq<ReceiverView> {
    receivers_at(list, dongle_keys(list))
}

/// The interface name in a path, without the tags of collections.
fn untag(iface: &[char]) -> (rest: Vec<char>)
    ensures
        rest@ == untagged(iface@),
{
    let mut rest: Vec<char> = Vec::new();
    rest.extend_from_slice(iface);
    assert(rest@ =~= iface@);
    let mut k: u8 = 0;
    while k < 10
        invariant
            k <= 10,
            rest@ == untagged_to(iface@, k as nat),
        decreases 10 - k,
    {
        k += 1;
        let mut tag: Vec<char> = chars_of("&col0");
        tag.push(digit(k % 10, LOWER));
        assert(tag@ =~= collection_tag(k as nat));
        rest = without(rest.as_slice(), tag.as_slice());
    }
    rest
}

/// The key of the dongle that a device path belongs to; none for a path that does
/// not tell it.
pub fn path_key(path: &str) -> (key: Option<String>)
    ensures
        text_view(key) == path_key_of(path@),
{
    let lower: Vec<char> = lower_chars(path);
    let parts: Vec<Vec<char>> = split(lower.as_slice(), '#');
    assert(texts(parts@).len() == parts@.len());
    if parts.len() < 3 {
        return None;
    }
    assert(texts(parts@)[1] == parts@[1]@ && texts(parts@)[2] == parts@[2]@);
    let iface: Vec<char> = untag(parts[1].as_slice());
    let inst: Vec<char> = cut_at_last(parts[2].as_slice(), '&');
    let mut key: String = spell(iface.as_slice());
    key.append("#");
    key.append(spell(inst.as_slice()).as_str());
    Some(key)
}

/// The key of a dongle whose path does not tell it.
pub fn serial_key(product_id: u16, serial: &Option<String>) -> (key: String)
    ensures
        key@ == serial_key_of(product_id, text_view(*serial)),
{
    let mut key: String = String::new();
    push_hex(&mut key, product_id as u64, 4, LOWER);
    key.append("|");
    if let Some(serial) = serial {
        key.append(serial.as_str());
    }
    key
}

/// A key that every HID interface of one physical dongle has, so that two dongles
/// that share a product id are not merged.
pub fn dedup_key(info: &HidInterface) -> (key: String)
    ensures
        key@ == key_of(info@),
{
    let path: String = from_utf8_lossy(info.path.as_slice());
    match path_key(path.as_str()) {
        Some(key) => key,
        None => serial_key(info.product_id, &info.serial),
    }
}

/// A dongle while its interfaces are collected.
struct Dongle {
    key: String,
    pid: u16,
    long: Option<Vec<u8>>,
    short: Option<Vec<u8>>,
}

impl Dongle {
    /// The interfaces of the dongle in `list` were collected.
    spec fn collected(self, list: Seq<InterfaceView>) -> bool {
        &&& self.pid == first_pid(list, self.key@)
        &&& path_view(self.long) == last_path(list, self.key@, HIDPP_LONG_USAGE)
        &&& path_view(self.short) == last_path(list, self.key@, HIDPP_SHORT_USAGE)
    }

    fn add(&mut self, info: &HidInterface)
        ensures
            final(self).key == old(self).key,
            final(self).pid == old(self).pid,
            path_view(final(self).long) == if info.usage == HIDPP_LONG_USAGE {
                Some(info.path@)
            } else {
                path_view(old(self).long)
            },
            path_view(final(self).short) == if info.usage == HIDPP_SHORT_USAGE {
                Some(info.path@)
            } else {
                path_view(old(self).short)
            },
    {
        if info.usage == HIDPP_LONG_USAGE {
            self.long = Some(copied(&info.path));
        } else if info.usage == HIDPP_SHORT_USAGE {
            self.short = Some(copied(&info.path));
        }
    }
}

/// The keys of dongles as plain values.
spec fn keys_of(found: Seq<Dongle>) -> Seq<Seq<char>> {
    found.map_values(|dongle: Dongle| dongle.key@)
}

/// A copy of some bytes.
pub(crate) fn copied(bytes: &Vec<u8>) -> (copy: Vec<u8>)
    ensures
        copy@ == bytes@,
{
    let mut copy: Vec<u8> = Vec::new();
    copy.extend_from_slice(bytes.as_slice());
    assert(copy@ =~= bytes@);
    copy
}

fn position(found: &Vec<Dongle>, key: &String) -> (at: Option<usize>)
    ensures
        match at {
            Some(at) => at < found@.len() && found@[at as int].key@ == key@,
            None => !keys_of(found@).contains(key@),
        },
{
    let mut i: usize = 0;
    while i < found.len()
        invariant
            i <= found@.len(),
            forall|j: int| 0 <= j < i ==> (#[trigger] found@[j]).key@ != key@,
        decreases found@.len() - i,
    {
        if found[i].key == *key {
            return Some(i);
        }
        i += 1;
    }
    assert forall|j: int| 0 <= j < keys_of(found@).len() implies keys_of(found@)[j] != key@ by {
        assert(found@[j].key@ != key@);
    }
    None
}

/// Find all Logitech HID++ receivers among the interfaces.
///
/// Any interface with vendor id 0x046D and usage page 0xFF00 counts, so Unifying
/// receivers, LIGHTSPEED nano-receivers and Bolt receivers are found without a list
/// of product ids. The long collection carries the device traffic: a dongle without
/// one is left out.
pub fn scan_receivers(interfaces: &[HidInterface]) -> (found: Vec<ReceiverPath>)
    ensures
        receiver_views(found@) == receivers(interface_views(interfaces@)),
{
    let ghost list = interface_views(interfaces@);
    let mut dongles: Vec<Dongle> = Vec::new();
    let mut i: usize = 0;
    let len: usize = interfaces.len();
    assert(keys_of(dongles@) =~= dongle_keys(list.take(0)));
    while i < len
        invariant
            i <= len,
            len == interfaces@.len(),
            list == interface_views(interfaces@),
            keys_of(dongles@) == dongle_keys(list.take(i as int)),
            forall|d: int|
                0 <= d < dongles@.len() ==> (#[trigger] dongles@[d]).collected(list.take(i as int)),
        decreases len - i,
    {
        let info: &HidInterface = &interfaces[i];
        let ghost before = dongles@;
        let ghost seen = list.take(i as int);
        let ghost next = list.take(i + 1);
        assert(next.drop_last() =~= seen);
        assert(next.last() == info@);
        assert(list[i as int] == info@);
        proof {
            law_dongles_are_listed_once(seen);
        }
        if info.vendor_id == LOGITECH_VID && info.usage_page == HIDPP_USAGE_PAGE {
            let key: String = dedup_key(info);
            match position(&dongles, &key) {
                Some(at) => {
                    let mut dongle: Dongle = dongles.remove(at);
                    dongle.add(info);
                    dongles.insert(at, dongle);
                    assert(keys_of(before)[at as int] == key@);
                    assert(dongle_keys(seen).contains(key@));
                    assert(keys_of(dongles@) =~= keys_of(before));
                    assert forall|d: int| 0 <= d < dongles@.len() implies (
                    #[trigger] dongles@[d]).collected(next) by {
                        assert(before[d].collected(seen));
                        assert(keys_of(before)[d] == before[d].key@);
                        if d != at {
                            assert(dongles@[d] == before[d]);
                            assert(before[d].key@ != key@);
                        }
                        lemma_key_was_seen(seen, before[d].key@);
                        lemma_first_pid_stays(next, before[d].key@);
                    }
                },
                None => {
                    let ghost text = key@;
                    let mut dongle: Dongle = Dongle {
                        key,
                        pid: info.product_id,
                        long: None,
                        short: None,
                    };
                    dongle.add(info);
                    dongles.push(dongle);
                    assert(keys_of(dongles@) =~= keys_of(before).push(text));
                    proof {
                        lemma_unseen_key(seen, text);
                        lemma_first_pid_appended(next, text);
                    }
                    assert forall|d: int| 0 <= d < dongles@.len() implies (
                    #[trigger] dongles@[d]).collected(next) by {
                        if d < before.len() {
                            assert(dongles@[d] == before[d]);
                            assert(before[d].collected(seen));
                            assert(keys_of(before)[d] == before[d].key@);
                            lemma_key_was_seen(seen, before[d].key@);
                            lemma_first_pid_stays(next, before[d].key@);
                        }
                    }
                },
            }
        } else {
            assert forall|d: int| 0 <= d < dongles@.len() implies (
            #[trigger] dongles@[d]).collected(next) by {
                assert(before[d].collected(seen));
                assert(keys_of(before)[d] == before[d].key@);
                lemma_key_was_seen(seen, before[d].key@);
                lemma_first_pid_stays(next, before[d].key@);
            }
        }
        i += 1;
    }
    assert(list.take(len as int) =~= list);
    let mut found: Vec<ReceiverPath> = Vec::new();
    let ghost keys = dongle_keys(list);
    let ghost all = dongles@;
    let mut d: usize = 0;
    assert(receiver_views(found@) =~= receivers_at(list, keys.take(0)));
    while d < dongles.len()
        invariant
            d <= dongles@.len(),
            dongles@ == all,
            keys_of(all) == keys,
            forall|d: int| 0 <= d < all.len() ==> (#[trigger] all[d]).collected(list),
            receiver_views(found@) == receivers_at(list, keys.take(d as int)),
        decreases all.len() - d,
    {
        assert(keys.take(d + 1).drop_last() =~= keys.take(d as int));
        assert(keys[d as int] == all[d as int].key@);
        assert(all[d as int].collected(list));
        let ghost so_far = receiver_views(found@);
        if let Some(long) = &dongles[d].long {
            let receiver: ReceiverPath = ReceiverPath {
                pid: dongles[d].pid,
                long_path: copied(long),
                short_path: match &dongles[d].short {
                    Some(short) => Some(copied(short)),
                    None => None,
                },
            };
            let ghost view = receiver@;
            found.push(receiver);
            assert(receiver_views(found@) =~= so_far.push(view));
        }
        d += 1;
    }
    assert(keys.take(d as int) =~= keys);
    found
}

/// What an attempt to open the long (0x0002) collection of a receiver comes to.
pub fn open_receiver(receiver: &ReceiverPath, opened: bool) -> (outcome: Result<(), HidError>)
    ensures
        outcome == if opened {
            Ok::<(), HidError>(())
        } else {
            Err(HidError::ReceiverUnavailable { pid: receiver.pid })
        },
{
    if opened {
        Ok(())
    } else {
        Err(HidError::ReceiverUnavailable { pid: receiver.pid })
    }
}

/// What an attempt to open the short (0x0001) collection of a receiver comes to. It
/// is an error if the receiver exposes no short collection.
pub fn open_notifier(receiver: &ReceiverPath, opened: bool) -> (outcome: Result<(), HidError>)
    ensures
        outcome == if receiver.short_path is None {
            Err::<(), HidError>(HidError::NotifierMissing { pid: receiver.pid })
        } else if opened {
            Ok(())
        } else {
            Err(HidError::NotifierUnavailable { pid: receiver.pid })
        },
{
    match &receiver.short_path {
        None => Err(HidError::NotifierMissing { pid: receiver.pid }),
        Some(_) => {
            if opened {
                Ok(())
            } else {
                Err(HidError::NotifierUnavailable { pid: receiver.pid })
            }
        },
    }
}

/// No dongle is listed twice.
pub proof fn law_dongles_are_listed_once(list: Seq<InterfaceView>)
    ensures
        forall|i: int, j: int|
            0 <= i < j < dongle_keys(list).len() ==> #[trigger] dongle_keys(list)[i]
                != #[trigger] dongle_keys(list)[j],
    decreases list.len(),
{
    if list.len() > 0 {
        law_dongles_are_listed_once(list.drop_last());
        let before = dongle_keys(list.drop_last());
        let keys = dongle_keys(list);
        assert forall|i: int, j: int| 0 <= i < j < keys.len() implies #[trigger] keys[i]
            != #[trigger] keys[j] by {
            assert(keys[i] == before[i]);
            assert(before.contains(before[i]));
            if j < before.len() {
                assert(keys[j] == before[j]);
            }
        }
    }
}

proof fn lemma_key_was_seen(list: Seq<InterfaceView>, key: Seq<char>)
    ensures
        dongle_keys(list).contains(key) <==> exists|i: int|
            0 <= i < list.len() && #[trigger] belongs_to(list[i], key),
    decreases list.len(),
{
    if list.len() > 0 {
        let shorter = list.drop_last();
        let before = dongle_keys(shorter);
        let keys = dongle_keys(list);
        lemma_key_was_seen(shorter, key);
        let last = list.last();
        if keys.contains(key) {
            if before.contains(key) {
                let i = choose|i: int| 0 <= i < shorter.len() && #[trigger] belongs_to(shorter[i], key);
                assert(belongs_to(list[i], key));
            } else {
                let k = choose|k: int| 0 <= k < keys.len() && keys[k] == key;
                assert(k < before.len() ==> before[k] == key);
                assert(belongs_to(list[list.len() - 1], key));
            }
        }
        if exists|i: int| 0 <= i < list.len() && #[trigger] belongs_to(list[i], key) {
            let i = choose|i: int| 0 <= i < list.len() && #[trigger] belongs_to(list[i], key);
            if i < shorter.len() {
                assert(belongs_to(shorter[i], key));
                let k = choose|k: int| 0 <= k < before.len() && before[k] == key;
                assert(keys[k] == key);
            } else if before.contains(key) {
                let k = choose|k: int| 0 <= k < before.len() && before[k] == key;
                assert(keys[k] == key);
            } else {
                assert(keys.last() == key);
            }
        }
    }
}

/// A dongle that was seen keeps the product id it was first seen with.
proof fn lemma_first_pid_stays(list: Seq<InterfaceView>, key: Seq<char>)
    requires
        list.len() > 0,
        exists|i: int| 0 <= i < list.len() - 1 && #[trigger] belongs_to(list.drop_last()[i], key),
    ensures
        first_pid(list, key) == first_pid(list.drop_last(), key),
    decreases list.len(),
{
    let shorter = list.drop_last();
    let i = choose|i: int| 0 <= i < list.len() - 1 && #[trigger] belongs_to(shorter[i], key);
    assert(shorter[0] == list[0]);
    if !belongs_to(list[0], key) {
        let tail = list.skip(1);
        assert(tail.drop_last() =~= shorter.skip(1));
        assert(belongs_to(tail.drop_last()[i - 1], key));
        lemma_first_pid_stays(tail, key);
    }
}

/// A dongle that was not seen before has the product id it is seen with.
proof fn lemma_first_pid_appended(list: Seq<InterfaceView>, key: Seq<char>)
    requires
        list.len() > 0,
        belongs_to(list.last(), key),
        forall|i: int| 0 <= i < list.len() - 1 ==> !#[trigger] belongs_to(list[i], key),
    ensures
        first_pid(list, key) == list.last().product_id,
    decreases list.len(),
{
    if list.len() > 1 {
        let tail = list.skip(1);
        assert forall|i: int| 0 <= i < tail.len() - 1 implies !#[trigger] belongs_to(
            tail[i],
            key,
        ) by {
            assert(tail[i] == list[i + 1]);
        }
        assert(!belongs_to(list[0], key));
        lemma_first_pid_appended(tail, key);
    }
}

/// Nothing is known of a dongle that was not seen.
proof fn lemma_unseen_key(list: Seq<InterfaceView>, key: Seq<char>)
    requires
        !dongle_keys(list).contains(key),
    ensures
        forall|i: int| 0 <= i < list.len() ==> !#[trigger] belongs_to(list[i], key),
        forall|usage: u16| #[trigger] last_path(list, key, usage) is None,
{
    lemma_key_was_seen(list, key);
    lemma_no_path(list, key);
}

proof fn lemma_no_path(list: Seq<InterfaceView>, key: Seq<char>)
    requires
        forall|i: int| 0 <= i < list.len() ==> !#[trigger] belongs_to(list[i], key),
    ensures
        forall|usage: u16| #[trigger] last_path(list, key, usage) is None,
    decreases list.len(),
{
    if list.len() > 0 {
        let shorter = list.drop_last();
        assert forall|i: int| 0 <= i < shorter.len() implies !#[trigger] belongs_to(
            shorter[i],
            key,
        ) by {
            assert(shorter[i] == list[i]);
        }
        lemma_no_path(shorter, key);
        assert(!belongs_to(list[list.len() - 1], key));
        assert forall|usage: u16| #[trigger] last_path(list, key, usage) is None by {
            assert(last_path(shorter, key, usage) is None);
        }
    }
}

/// The collections of one dongle have the same key: neither the collection tag, whatever
/// its digit, nor what follows the last `&` of the instance id goes into it.
pub proof fn law_collections_share_key(
    path: Seq<char>,
    bus: Seq<char>,
    iface: Seq<char>,
    collection: nat,
    inst: Seq<char>,
    number: Seq<char>,
    class: Seq<char>,
)
    requires
        1 <= collection <= 10,
        lower_text(path) == join_text(
            seq![bus, iface + collection_tag(collection), inst + seq!['&'] + number, class],
            seq!['#'],
        ),
        !bus.contains('#'),
        !iface.contains('#'),
        !inst.contains('#'),
        !number.contains('#'),
        !class.contains('#'),
        !number.contains('&'),
    ensures
        path_key_of(path) == Some(untagged(iface) + "#"@ + inst),
{
    reveal_strlit("&col0");
    let tag = collection_tag(collection);
    let tagged = iface + tag;
    let numbered = inst + seq!['&'] + number;
    let pieces = seq![bus, tagged, numbered, class];
    assert(!tagged.contains('#')) by {
        assert forall|i: int| 0 <= i < tagged.len() implies tagged[i] != '#' by {
            if i < iface.len() {
                assert(iface.contains(iface[i]));
            }
        }
    }
    assert(!numbered.contains('#')) by {
        assert forall|i: int| 0 <= i < numbered.len() implies numbered[i] != '#' by {
            if i < inst.len() {
                assert(inst.contains(inst[i]));
            } else if i > inst.len() {
                assert(number.contains(number[i - inst.len() - 1]));
            }
        }
    }
    assert forall|i: int| 0 <= i < pieces.len() implies !(#[trigger] pieces[i]).contains('#') by {
        assert(i == 0 || i == 1 || i == 2 || i == 3);
    }
    law_join_then_split(pieces, '#');
    law_before_last_of_joined(inst, number, '&');
    lemma_tag_taken_out(iface, collection, 10);
}

/// A tag at the end is taken out with its collection, and is in nobody's way before.
proof fn lemma_tag_taken_out(iface: Seq<char>, collection: nat, k: nat)
    requires
        1 <= collection <= 10,
        k <= 10,
    ensures
        untagged_to(iface + collection_tag(collection), k) == untagged_to(iface, k) + if k
            < collection {
            collection_tag(collection)
        } else {
            Seq::empty()
        },
    decreases k,
{
    reveal_strlit("&col0");
    let tag = collection_tag(collection);
    let tagged = iface + tag;
    if k > 0 {
        let before = (k - 1) as nat;
        let pattern = collection_tag(k);
        lemma_tag_taken_out(iface, collection, before);
        if k < collection {
            assert(tag[5] != pattern[5]);
            law_without_appended(untagged_to(iface, before), tag, pattern);
            law_without_absent(tag, pattern);
        } else if k == collection {
            law_without_appended(untagged_to(iface, before), tag, pattern);
            assert(tag.subrange(0, 6) =~= tag);
            assert(tag.skip(6) =~= Seq::<char>::empty());
            reveal_with_fuel(without_text, 2);
        } else {
            let rest = untagged_to(iface, before);
            assert(rest + Seq::empty() =~= rest);
            let after = untagged_to(iface, k);
            assert(after + Seq::empty() =~= after);
        }
    } else {
        assert(untagged_to(tagged, 0) == tagged);
    }
}

/// Taking tags out brings in no `#`.
proof fn lemma_untagged_keeps_out(iface: Seq<char>, k: nat)
    requires
        !iface.contains('#'),
    ensures
        !untagged_to(iface, k).contains('#'),
    decreases k,
{
    if k > 0 {
        lemma_untagged_keeps_out(iface, (k - 1) as nat);
        law_without_keeps_out(untagged_to(iface, (k - 1) as nat), collection_tag(k), '#');
    }
}

/// Two dongles are told apart by their interface name and instance id: paths with
/// the same key agree in both.
pub proof fn law_keys_tell_dongles_apart(a: Seq<char>, b: Seq<char>)
    requires
        path_key_of(a) is Some,
        path_key_of(a) == path_key_of(b),
    ensures
        ({
            let x = split_text(lower_text(a), '#');
            let y = split_text(lower_text(b), '#');
            &&& untagged(x[1]) == untagged(y[1])
            &&& before_last(x[2], '&') == before_last(y[2], '&')
        }),
{
    reveal_strlit("#");
    assert("#"@ =~= seq!['#']);
    let x = split_text(lower_text(a), '#');
    let y = split_text(lower_text(b), '#');
    law_split_then_join(lower_text(a), '#');
    law_split_then_join(lower_text(b), '#');
    assert(!x[1].contains('#') && !y[1].contains('#'));
    lemma_untagged_keeps_out(x[1], 10);
    lemma_untagged_keeps_out(y[1], 10);
    lemma_cut_apart(
        untagged(x[1]),
        before_last(x[2], '&'),
        untagged(y[1]),
        before_last(y[2], '&'),
        '#',
    );
}

/// Texts joined by a character that the first parts do not hold agree only where the
/// parts agree.
proof fn lemma_cut_apart(a: Seq<char>, b: Seq<char>, c: Seq<char>, d: Seq<char>, mark: char)
    requires
        !a.contains(mark),
        !c.contains(mark),
        a + seq![mark] + b == c + seq![mark] + d,
    ensures
        a == c,
        b == d,
{
    let s = a + seq![mark] + b;
    let t = c + seq![mark] + d;
    assert(s == t);
    assert(s.len() == a.len() + 1 + b.len());
    assert(t.len() == c.len() + 1 + d.len());
    assert(s[a.len() as int] == mark);
    assert(t[c.len() as int] == mark);
    if a.len() < c.len() {
        assert(c[a.len() as int] == mark);
        assert(c.contains(mark));
    } else if c.len() < a.len() {
        assert(a[c.len() as int] == mark);
        assert(a.contains(mark));
    }
    assert forall|i: int| 0 <= i < a.len() implies a[i] == c[i] by {
        assert(s[i] == a[i] && t[i] == c[i]);
    }
    assert(a =~= c);
    assert forall|i: int| 0 <= i < b.len() implies b[i] == d[i] by {
        assert(s[a.len() + 1 + i] == b[i] && t[a.len() + 1 + i] == d[i]);
    }
    assert(b =~= d);
}

/// Where the paths do not tell the dongles apart, product id and serial number do.
pub proof fn law_serial_keys_tell_dongles_apart(p: u16, s: Seq<char>, q: u16, t: Seq<char>)
    requires
        serial_key_of(p, Some(s)) == serial_key_of(q, Some(t)),
    ensures
        p == q,
        s == t,
{
    reveal_strlit("|");
    let a = hex_digits(p as nat, 4, LOWER);
    let b = hex_digits(q as nat, 4, LOWER);
    law_hex_digits_len(p as nat, 4, LOWER);
    law_hex_digits_len(q as nat, 4, LOWER);
    let x = serial_key_of(p, Some(s));
    let y = serial_key_of(q, Some(t));
    assert(x.take(4) =~= a);
    assert(y.take(4) =~= b);
    assert(x.skip(5) =~= s);
    assert(y.skip(5) =~= t);
    vstd::arithmetic::power::lemma_pow0(16);
    reveal_with_fuel(vstd::arithmetic::power::pow, 5);
    law_hex_digits_injective(p as nat, q as nat, 4, LOWER);
}

/// The receiver is the dongle with one of the keys.
pub open spec fn comes_from(
    list: Seq<InterfaceView>,
    keys: Seq<Seq<char>>,
    receiver: ReceiverView,
) -> bool {
    exists|key: Seq<char>| #[trigger]
        keys.contains(key) && receiver_at(list, key) == Some(receiver)
}

/// The dongle is one of the receivers.
pub open spec fn is_found(list: Seq<InterfaceView>, key: Seq<char>) -> bool {
    match receiver_at(list, key) {
        Some(receiver) => receivers(list).contains(receiver),
        None => false,
    }
}

/// Every receiver that is found is a dongle that is listed, with its long collection
/// among the interfaces, and every listed dongle with a long collection is found.
pub proof fn law_receivers_are_dongles_with_a_long_collection(list: Seq<InterfaceView>)
    ensures
        forall|r: int|
            0 <= r < receivers(list).len() ==> comes_from(
                list,
                dongle_keys(list),
                #[trigger] receivers(list)[r],
            ),
        forall|i: int|
            0 <= i < list.len() && is_hidpp(#[trigger] list[i]) && list[i].usage == HIDPP_LONG_USAGE
                ==> is_found(list, key_of(list[i])),
{
    let keys = dongle_keys(list);
    lemma_receivers_at(list, keys);
    assert forall|i: int|
        0 <= i < list.len() && is_hidpp(#[trigger] list[i]) && list[i].usage
            == HIDPP_LONG_USAGE implies is_found(list, key_of(list[i])) by {
        let key = key_of(list[i]);
        assert(belongs_to(list[i], key));
        lemma_key_was_seen(list, key);
        lemma_some_path(list, key, HIDPP_LONG_USAGE, i);
    }
}

proof fn lemma_receivers_at(list: Seq<InterfaceView>, keys: Seq<Seq<char>>)
    ensures
        forall|r: int|
            0 <= r < receivers_at(list, keys).len() ==> comes_from(
                list,
                keys,
                #[trigger] receivers_at(list, keys)[r],
            ),
        forall|key: Seq<char>| #[trigger]
            keys.contains(key) ==> match receiver_at(list, key) {
                Some(receiver) => receivers_at(list, keys).contains(receiver),
                None => true,
            },
    decreases keys.len(),
{
    if keys.len() > 0 {
        let shorter = keys.drop_last();
        let before = receivers_at(list, shorter);
        let all = receivers_at(list, keys);
        lemma_receivers_at(list, shorter);
        assert forall|r: int| 0 <= r < all.len() implies comes_from(
            list,
            keys,
            #[trigger] all[r],
        ) by {
            if r < before.len() {
                assert(all[r] == before[r]);
                assert(comes_from(list, shorter, before[r]));
                let key = choose|key: Seq<char>| #[trigger]
                    shorter.contains(key) && receiver_at(list, key) == Some(before[r]);
                let k = choose|k: int| 0 <= k < shorter.len() && shorter[k] == key;
                assert(keys[k] == key);
                assert(keys.contains(key));
            } else {
                assert(keys.contains(keys.last()));
            }
        }
        assert forall|key: Seq<char>| #[trigger] keys.contains(key) implies match receiver_at(
            list,
            key,
        ) {
            Some(receiver) => all.contains(receiver),
            None => true,
        } by {
            let k = choose|k: int| 0 <= k < keys.len() && keys[k] == key;
            if k < shorter.len() {
                assert(shorter[k] == key);
                assert(shorter.contains(key));
                if let Some(receiver) = receiver_at(list, key) {
                    let r = choose|r: int| 0 <= r < before.len() && before[r] == receiver;
                    assert(all[r] == receiver);
                }
            } else if let Some(receiver) = receiver_at(list, key) {
                assert(all.last() == receiver);
            }
        }
    }
}

/// A dongle with an interface of this usage has a path for it.
proof fn lemma_some_path(list: Seq<InterfaceView>, key: Seq<char>, usage: u16, i: int)
    requires
        0 <= i < list.len(),
        belongs_to(list[i], key),
        list[i].usage == usage,
    ensures
        last_path(list, key, usage) is Some,
    decreases list.len(),
{
    if i < list.len() - 1 {
        assert(list.drop_last()[i] == list[i]);
        lemma_some_path(list.drop_last(), key, usage, i);
    }
}

/// The path of a receiver's collection is that of a listed HID++ interface of the
/// dongle with the right usage.
pub proof fn law_paths_are_listed(list: Seq<InterfaceView>, key: Seq<char>, usage: u16)
    ensures
        last_path(list, key, usage) matches Some(path) ==> exists|i: int|
            0 <= i < list.len() && belongs_to(#[trigger] list[i], key) && list[i].usage == usage
                && list[i].path == path,
    decreases list.len(),
{
    if list.len() > 0 {
        let shorter = list.drop_last();
        if belongs_to(list.last(), key) && list.last().usage == usage {
            assert(list[list.len() - 1] == list.last());
        } else if last_path(list, key, usage) is Some {
            law_paths_are_listed(shorter, key, usage);
            let path = last_path(shorter, key, usage)->0;
            let i = choose|i: int|
                0 <= i < shorter.len() && belongs_to(#[trigger] shorter[i], key)
                    && shorter[i].usage == usage && shorter[i].path == path;
            assert(list[i] == shorter[i]);
        }
    }
}

/// The interface belongs to a receiver: of vendor 0x046D, on usage page 0xFF00, under the
/// key, with the usage.
pub open spec fn collection_of(info: InterfaceView, key: Seq<char>, usage: u16) -> bool {
    info.vendor_id == 0x046D && info.usage_page == 0xFF00 && key_of(info) == key && info.usage
        == usage
}

/// An interface counts exactly where its vendor is 0x046D and its usage page 0xFF00,
/// whatever else it is.
pub proof fn law_hidpp_interfaces(info: InterfaceView, key: Seq<char>)
    ensures
        is_hidpp(info) <==> info.vendor_id == 0x046D && info.usage_page == 0xFF00,
        belongs_to(info, key) <==> info.vendor_id == 0x046D && info.usage_page == 0xFF00 && key_of(
            info,
        ) == key,
{
}

/// The path of a collection is that of the last interface that is listed for it, and
/// there is none where none is listed.
pub proof fn law_last_listed_path_counts(
    list: Seq<InterfaceView>,
    key: Seq<char>,
    usage: u16,
    k: int,
)
    ensures
        0 <= k < list.len() && collection_of(list[k], key, usage) && (forall|j: int|
            k < j < list.len() ==> !collection_of(#[trigger] list[j], key, usage)) ==> last_path(
            list,
            key,
            usage,
        ) == Some(list[k].path),
        (forall|j: int| 0 <= j < list.len() ==> !collection_of(#[trigger] list[j], key, usage))
            ==> last_path(list, key, usage) is None,
    decreases list.len(),
{
    if list.len() > 0 {
        let before = list.drop_last();
        law_last_listed_path_counts(before, key, usage, k);
        assert(forall|j: int| 0 <= j < before.len() ==> #[trigger] before[j] == list[j]);
        assert(list.last() == list[list.len() - 1]);
    }
}

/// The product id is that of the first interface that is listed for the receiver.
pub proof fn law_first_listed_pid_counts(list: Seq<InterfaceView>, key: Seq<char>, k: int)
    requires
        0 <= k < list.len(),
        belongs_to(list[k], key),
        forall|j: int| 0 <= j < k ==> !belongs_to(#[trigger] list[j], key),
    ensures
        first_pid(list, key) == list[k].product_id,
    decreases list.len(),
{
    if k > 0 {
        let rest = list.skip(1);
        assert(!belongs_to(list[0], key));
        assert(forall|j: int| 0 <= j < rest.len() ==> #[trigger] rest[j] == list[j + 1]);
        assert(rest[k - 1] == list[k]);
        law_first_listed_pid_counts(rest, key, k - 1);
    }
}

/// A receiver is what is listed under its key: its product id from the first interface,
/// its device traffic on usage 2, its notifications on usage 1 where that is listed. One
/// that has no usage 2 is none.
pub proof fn law_receiver_by_interfaces(
    list: Seq<InterfaceView>,
    key: Seq<char>,
    first: int,
    long: int,
    short: int,
)
    requires
        0 <= first < list.len(),
        belongs_to(list[first], key),
        forall|j: int| 0 <= j < first ==> !belongs_to(#[trigger] list[j], key),
        0 <= long < list.len(),
        collection_of(list[long], key, 2),
        forall|j: int| long < j < list.len() ==> !collection_of(#[trigger] list[j], key, 2),
    ensures
        receiver_at(list, key) is Some,
        receiver_at(list, key)->0.pid == list[first].product_id,
        receiver_at(list, key)->0.long_path == list[long].path,
        0 <= short < list.len() && collection_of(list[short], key, 1) && (forall|j: int|
            short < j < list.len() ==> !collection_of(#[trigger] list[j], key, 1)) ==> receiver_at(
            list,
            key,
        )->0.short_path == Some(list[short].path),
        (forall|j: int| 0 <= j < list.len() ==> !collection_of(#[trigger] list[j], key, 1))
            ==> receiver_at(list, key)->0.short_path is None,
{
    law_first_listed_pid_counts(list, key, first);
    law_last_listed_path_counts(list, key, 2, long);
    law_last_listed_path_counts(list, key, 1, short);
}

/// Without a collection of usage 2 nothing is a receiver.
pub proof fn law_no_receiver_without_long_collection(list: Seq<InterfaceView>, key: Seq<char>)
    requires
        forall|j: int| 0 <= j < list.len() ==> !collection_of(#[trigger] list[j], key, 2),
    ensures
        receiver_at(list, key) is None,
{
    law_last_listed_path_counts(list, key, 2, 0);
}

/// Receivers stand in the order of their keys, and keys in the order in which they are
/// first listed: what is listed later changes no place.
pub proof fn law_receivers_in_order(
    list: Seq<InterfaceView>,
    keys: Seq<Seq<char>>,
    more: Seq<Seq<char>>,
    n: int,
)
    requires
        0 <= n <= list.len(),
    ensures
        receivers_at(list, keys + more) == receivers_at(list, keys) + receivers_at(list, more),
        dongle_keys(list.take(n)).is_prefix_of(dongle_keys(list)),
        receivers(list) == receivers_at(list, dongle_keys(list)),
    decreases more.len() + list.len() - n,
{
    if more.len() == 0 {
        assert(keys + more =~= keys);
        assert(receivers_at(list, keys) + receivers_at(list, more) =~= receivers_at(list, keys));
    } else {
        law_receivers_in_order(list, keys, more.drop_last(), n);
        assert((keys + more).drop_last() =~= keys + more.drop_last());
        assert((keys + more).last() == more.last());
        if let Some(receiver) = receiver_at(list, more.last()) {
            let before = receivers_at(list, more.drop_last());
            assert(receivers_at(list, keys) + before.push(receiver) =~= (receivers_at(list, keys)
                + before).push(receiver));
        }
    }
    if n == list.len() {
        assert(list.take(n) =~= list);
    } else {
        law_receivers_in_order(list, keys, more, n + 1);
        let longer = list.take(n + 1);
        assert(longer.drop_last() =~= list.take(n));
    }
}

/// The key of an interface comes from its path where that has the parts, else from its
/// product id and serial number.
pub proof fn law_key_source(info: InterfaceView)
    ensures
        path_key_of(text_of(info.path)) is Some ==> key_of(info) == path_key_of(
            text_of(info.path),
        )->0,
        path_key_of(text_of(info.path)) is None ==> key_of(info) == serial_key_of(
            info.product_id,
            info.serial,
        ),
        split_text(lower_text(text_of(info.path)), '#').len() < 3 <==> path_key_of(
            text_of(info.path),
        ) is None,
{
}

/// The case of a path does not matter to its key.
pub proof fn law_path_key_ignores_case(path: Seq<char>)
    ensures
        path_key_of(lower_text(path)) == path_key_of(path),
{
    assert(lower_text(lower_text(path)) =~= lower_text(path)) by {
        if path.len() > 0 {
            law_lowered(path, 0);
        }
    }
}

/// A key from a serial number reads as the product id in four hex digits, a bar and the
/// serial number, which may be missing.
pub proof fn law_serial_key_parts(product_id: u16, serial: Option<Seq<char>>)
    ensures
        serial_key_of(product_id, serial).len() >= 5,
        number_of(serial_key_of(product_id, serial).take(4), 16) == product_id,
        serial_key_of(product_id, serial)[4] == '|',
        serial matches Some(text) ==> serial_key_of(product_id, serial).skip(5) == text,
        serial is None ==> serial_key_of(product_id, serial).len() == 5,
{
    reveal_strlit("|");
    reveal_with_fuel(vstd::arithmetic::power::pow, 5);
    law_hex_digits_value(product_id as nat, 4, LOWER);
    let key = serial_key_of(product_id, serial);
    assert(key.take(4) =~= hex_digits(product_id as nat, 4, LOWER));
    if let Some(text) = serial {
        assert(key.skip(5) =~= text);
    }
}

/// A part of a path that names no collection is taken as it is.
pub proof fn law_untagged_without_tag(iface: Seq<char>)
    requires
        forall|k: nat| 1 <= k <= 10 ==> !occurs_in(iface, #[trigger] collection_tag(k)),
    ensures
        untagged(iface) == iface,
{
    lemma_untagged_without_tag(iface, 10);
}

proof fn lemma_untagged_without_tag(iface: Seq<char>, k: nat)
    requires
        k <= 10,
        forall|k: nat| 1 <= k <= 10 ==> !occurs_in(iface, #[trigger] collection_tag(k)),
    ensures
        untagged_to(iface, k) == iface,
    decreases k,
{
    if k > 0 {
        lemma_untagged_without_tag(iface, (k - 1) as nat);
        let tag = collection_tag(k);
        reveal_strlit("&col0");
        assert(!occurs_in(iface, tag));
        assert forall|j: int| 0 <= j < iface.len() implies !#[trigger] occurs_at(iface, tag, j) by {
            if occurs_at(iface, tag, j) {
                assert(occurs_in(iface, tag));
            }
        }
        law_first_occurrence_goes(iface, tag, iface.len() as int);
    }
}

/// The tags of the collections are "&col0" with one digit, from 1 to 9 and then 0.
pub proof fn law_collection_tags(k: nat)
    requires
        1 <= k <= 10,
    ensures
        collection_tag(k).len() == 6,
        collection_tag(k).take(5) == "&col0"@,
        collection_tag(k)[5] as int == '0' as int + k % 10,
{
    reveal_strlit("&col0");
    assert(collection_tag(k).take(5) =~= "&col0"@);
}

/// The key of a path that has its parts between marks: the second part without its
/// collection, and the third up to its last ampersand. The first part and those behind the
/// third do not matter.
pub proof fn law_path_key_by_parts(path: Seq<char>, pieces: Seq<Seq<char>>)
    requires
        pieces.len() >= 3,
        forall|i: int| 0 <= i < pieces.len() ==> !(#[trigger] pieces[i]).contains('#'),
        lower_text(path) == join_text(pieces, seq!['#']),
    ensures
        path_key_of(path) == Some(untagged(pieces[1]) + "#"@ + before_last(pieces[2], '&')),
{
    law_join_then_split(pieces, '#');
}

} // verus!
