//! What the widget is told of a device, and where it stands on the screen.

use crate::hid::client::{DeviceEvent, EventView};
use crate::hid::device::{device_key_text, law_device_key_injective};
use crate::hid::name::{from_utf8_lossy, text_of};
use crate::hid::scanner::ReceiverPath;
use crate::model::BatteryView;
use crate::text::{
    contains, hex_digits, law_hex_digits_len, law_hex_digits_value, law_lowered, lower_chars,
    lower_text, number_of, occurs_at, occurs_in, push_hex, LOWER,
};
use std::collections::hash_map::DefaultHasher;
use std::hash::{Hash, Hasher};
use vstd::arithmetic::power::pow;
use vstd::prelude::*;
use vstd::std_specs::hash::DefaultHasherAdditionalSpecFns;

verus! {

/// Distance of the widget from the right edge of the screen.
pub const MARGIN_RIGHT: u32 = 20;

/// Distance of the widget from the bottom of the screen.
pub const MARGIN_BOTTOM: u32 = 60;

/// What `str` feeds to a hasher.
pub uninterp spec fn hashed_text(s: Seq<char>) -> Seq<Seq<u8>>;

/// `Hash::hash` of `str`, with std's `DefaultHasher`: what it feeds to the hasher is a
/// function of the text, and is added to what was fed before. Which bytes those are is
/// left unsaid.
#[verifier::external_body]
fn hash_text(s: &str, hasher: &mut DefaultHasher)
    ensures
        final(hasher)@ == old(hasher)@ + hashed_text(s@),
{
    s.hash(hasher)
}

/// The number that std's `DefaultHasher` makes of a text.
pub open spec fn hash_of(s: Seq<char>) -> u64 {
    DefaultHasher::spec_finish(hashed_text(s))
}

/// The id for a hash: its 32 lowest bits, as hexadecimal digits.
pub open spec fn hash_id(hash: u64) -> Seq<char> {
    hex_digits((hash % 0x1_0000_0000) as nat, 8, LOWER)
}

/// The id for a hash: its 32 lowest bits, as hexadecimal digits.
pub fn id_of_hash(hash: u64) -> (id: String)
    ensures
        id@ == hash_id(hash),
{
    let mut id: String = String::new();
    push_hex(&mut id, hash % 0x1_0000_0000, 8, LOWER);
    id
}

/// Short stable id derived from the receiver's HID path. Two dongles can share a
/// product id and have a device on the same slot, which would otherwise share a
/// device key.
pub fn short_id(s: &str) -> (id: String)
    ensures
        id@ == hash_id(hash_of(s@)),
        number_of(id@, 16) == DefaultHasher::spec_finish(hashed_text(s@)) as u32,
{
    proof {
        law_id_is_the_low_half(hash_of(s@));
    }
    let mut hasher: DefaultHasher = DefaultHasher::new();
    hash_text(s, &mut hasher);
    assert(hasher@ =~= hashed_text(s@));
    id_of_hash(hasher.finish())
}

/// The id of a receiver, from the path of its long collection.
pub fn receiver_id(receiver: &ReceiverPath) -> (id: String)
    ensures
        id@ == hash_id(hash_of(text_of(receiver.long_path@))),
{
    let path: String = from_utf8_lossy(receiver.long_path.as_slice());
    short_id(path.as_str())
}

/// The lower-case name is that of a keyboard.
pub open spec fn names_keyboard(lower: Seq<char>) -> bool {
    ||| occurs_in(lower, "keyboard"@)
    ||| occurs_in(lower, "keys"@)
    ||| occurs_in(lower, "g715"@)
    ||| occurs_in(lower, "g915"@)
    ||| occurs_in(lower, "g815"@)
}

/// The lower-case name is that of a mouse.
pub open spec fn names_mouse(lower: Seq<char>) -> bool {
    ||| occurs_in(lower, "mouse"@)
    ||| occurs_in(lower, "mx master"@)
    ||| occurs_in(lower, "mx anywhere"@)
    ||| occurs_in(lower, "superlight"@)
    ||| occurs_in(lower, "pro x wireless"@)
    ||| occurs_in(lower, "pro wireless"@)
    ||| occurs_in(lower, "g pro"@)
    ||| occurs_in(lower, "g502"@)
    ||| occurs_in(lower, "g703"@)
    ||| occurs_in(lower, "g903"@)
}

/// The kind of device that a name tells. A name that tells both is a keyboard's.
pub open spec fn kind_of(name: Seq<char>) -> Seq<char> {
    if names_keyboard(lower_text(name)) {
        "keyboard"@
    } else if names_mouse(lower_text(name)) {
        "mouse"@
    } else {
        "other"@
    }
}

/// The kind of device that a name tells.
pub fn device_kind(name: &str) -> (kind: &'static str)
    ensures
        kind@ == kind_of(name@),
{
    let chars: Vec<char> = lower_chars(name);
    let lower: &[char] = chars.as_slice();
    if contains(lower, "keyboard") || contains(lower, "keys") || contains(lower, "g715") || contains(
        lower,
        "g915",
    ) || contains(lower, "g815") {
        return "keyboard";
    }
    if contains(lower, "mouse") || contains(lower, "mx master") || contains(lower, "mx anywhere")
        || contains(lower, "superlight") || contains(lower, "pro x wireless") || contains(
        lower,
        "pro wireless",
    ) || contains(lower, "g pro") || contains(lower, "g502") || contains(lower, "g703") || contains(
        lower,
        "g903",
    ) {
        return "mouse";
    }
    "other"
}

/// What the widget is told of a device.
#[derive(Clone, Debug, PartialEq, Eq)]
pub struct BatteryPayload {
    pub device_key: String,
    pub device_kind: String,
    pub name: String,
    /// The charge; none for a device that is gone.
    pub percentage: Option<u8>,
    pub charging: bool,
}

/// What the widget is told, as plain values.
#[verifier::ext_equal]
pub struct PayloadView {
    pub device_key: Seq<char>,
    pub device_kind: Seq<char>,
    pub name: Seq<char>,
    pub percentage: Option<u8>,
    pub charging: bool,
}

impl View for BatteryPayload {
    type V = PayloadView;

    open spec fn view(&self) -> PayloadView {
        PayloadView {
            device_key: self.device_key@,
            device_kind: self.device_kind@,
            name: self.name@,
            percentage: self.percentage,
            charging: self.charging,
        }
    }
}

/// The key of a device for the widget: the receiver's id and the device key.
pub open spec fn widget_key(rid: Seq<char>, key: Seq<char>) -> Seq<char> {
    rid + ":"@ + key
}

/// What the widget is told of an event on the receiver with the id `rid`.
pub open spec fn payload_of(rid: Seq<char>, event: EventView) -> PayloadView {
    match event {
        EventView::Update(state) => PayloadView {
            device_key: widget_key(rid, state.device_key),
            device_kind: kind_of(state.display_name),
            name: state.display_name,
            percentage: Some(state.battery_percent),
            charging: state.is_charging,
        },
        EventView::Gone(key) => PayloadView {
            device_key: widget_key(rid, key),
            device_kind: "other"@,
            name: Seq::empty(),
            percentage: None,
            charging: false,
        },
    }
}

fn keyed(rid: &str, key: &str) -> (joined: String)
    ensures
        joined@ == widget_key(rid@, key@),
{
    let mut joined: String = rid.to_owned();
    joined.append(":");
    joined.append(key);
    joined
}

/// What the widget is told of an event on the receiver with the id `rid`.
pub fn payload(rid: &str, event: DeviceEvent) -> (payload: BatteryPayload)
    ensures
        payload@ == payload_of(rid@, event@),
        event matches DeviceEvent::Update(state) ==> payload.percentage == Some(
            state.battery_percent,
        ) && payload.charging == state.is_charging && payload.name@ == state.display_name@,
        event is Gone ==> payload.percentage is None && !payload.charging,
{
    match event {
        DeviceEvent::Update(state) => BatteryPayload {
            device_key: keyed(rid, state.device_key.as_str()),
            device_kind: device_kind(state.display_name.as_str()).to_owned(),
            name: state.display_name,
            percentage: Some(state.battery_percent),
            charging: state.is_charging,
        },
        DeviceEvent::Gone(key) => BatteryPayload {
            device_key: keyed(rid, key.as_str()),
            device_kind: "other".to_owned(),
            name: String::new(),
            percentage: None,
            charging: false,
        },
    }
}

/// What is left of `total` after `size` and `margin` are taken off, but not less than
/// nothing.
pub open spec fn room(total: u32, size: u32, margin: u32) -> u32 {
    if total >= size + margin {
        (total - size - margin) as u32
    } else {
        0
    }
}

fn room_left(total: u32, size: u32, margin: u32) -> (left: u32)
    ensures
        left == room(total, size, margin),
{
    total.saturating_sub(size).saturating_sub(margin)
}

/// Where the widget's corner is put on the screen: near the lower right corner.
pub fn widget_position(screen_width: u32, screen_height: u32, width: u32, height: u32) -> (position:
    (i32, i32))
    ensures
        position.0 == room(screen_width, width, MARGIN_RIGHT) as i32,
        position.1 == room(screen_height, height, MARGIN_BOTTOM) as i32,
{
    let x: u32 = room_left(screen_width, width, MARGIN_RIGHT);
    let y: u32 = room_left(screen_height, height, MARGIN_BOTTOM);
    (x as i32, y as i32)
}

/// A receiver's id has eight digits.
pub proof fn law_id_length(hash: u64)
    ensures
        hash_id(hash).len() == 8,
{
    law_hex_digits_len((hash % 0x1_0000_0000) as nat, 8, LOWER);
}

/// Devices are told apart in the widget: keys that agree are those of the same slot of
/// receivers with the same id and product id.
pub proof fn law_widget_keys_tell_devices_apart(
    hash: u64,
    pid: u16,
    slot: u8,
    other_hash: u64,
    other_pid: u16,
    other_slot: u8,
)
    requires
        widget_key(hash_id(hash), device_key_text(pid, slot)) == widget_key(
            hash_id(other_hash),
            device_key_text(other_pid, other_slot),
        ),
    ensures
        hash_id(hash) == hash_id(other_hash),
        pid == other_pid,
        slot == other_slot,
{
    reveal_strlit(":");
    law_id_length(hash);
    law_id_length(other_hash);
    let a = widget_key(hash_id(hash), device_key_text(pid, slot));
    let b = widget_key(hash_id(other_hash), device_key_text(other_pid, other_slot));
    assert(a.take(8) =~= hash_id(hash));
    assert(b.take(8) =~= hash_id(other_hash));
    assert(a.skip(9) =~= device_key_text(pid, slot));
    assert(b.skip(9) =~= device_key_text(other_pid, other_slot));
    law_device_key_injective(pid, slot, other_pid, other_slot);
}

/// The departure of a device goes to the key that its readings went to.
pub proof fn law_departure_has_the_key_of_the_readings(rid: Seq<char>, event: EventView)
    ensures
        event matches EventView::Update(state) ==> payload_of(
            rid,
            EventView::Gone(state.device_key),
        ).device_key == payload_of(rid, event).device_key,
        payload_of(rid, event).percentage is None <==> event is Gone,
{
}

/// On a screen that has room for it the widget stands within the screen, with its
/// margins; on one that has not it stands at the edge.
pub proof fn law_widget_stays_on_screen(total: u32, size: u32, margin: u32)
    requires
        total <= i32::MAX,
    ensures
        room(total, size, margin) as i32 == room(total, size, margin),
        0 <= room(total, size, margin) as i32 <= total,
        size + margin <= total ==> room(total, size, margin) as i32 + size + margin == total,
        size + margin > total ==> room(total, size, margin) as i32 == 0,
{
    let left = room(total, size, margin);
    assert(left <= 0x7FFF_FFFF ==> left as i32 == left) by (bit_vector);
}

/// What the widget is told of a reading is the reading: its name, its charge and whether
/// it charges, under the receiver's id and the device key. Of a departure it is told the
/// key alone.
pub proof fn law_payload_tells_the_reading(rid: Seq<char>, state: BatteryView, key: Seq<char>)
    ensures
        payload_of(rid, EventView::Update(state)).percentage == Some(state.battery_percent),
        payload_of(rid, EventView::Update(state)).name == state.display_name,
        payload_of(rid, EventView::Update(state)).charging == state.is_charging,
        payload_of(rid, EventView::Update(state)).device_kind == kind_of(state.display_name),
        payload_of(rid, EventView::Update(state)).device_key == rid + ":"@ + state.device_key,
        payload_of(rid, EventView::Gone(key)).percentage is None,
        payload_of(rid, EventView::Gone(key)).name.len() == 0,
        payload_of(rid, EventView::Gone(key)).charging == false,
        payload_of(rid, EventView::Gone(key)).device_kind == "other"@,
        payload_of(rid, EventView::Gone(key)).device_key == rid + ":"@ + key,
{
}

/// Two readings that differ in charge, charging or name are told differently.
pub proof fn law_payload_keeps_readings_apart(rid: Seq<char>, a: BatteryView, b: BatteryView)
    requires
        payload_of(rid, EventView::Update(a)) == payload_of(rid, EventView::Update(b)),
    ensures
        a.battery_percent == b.battery_percent,
        a.is_charging == b.is_charging,
        a.display_name == b.display_name,
        a.device_key == b.device_key,
{
    reveal_strlit(":");
    let x = widget_key(rid, a.device_key);
    let y = widget_key(rid, b.device_key);
    assert(x.skip((rid.len() + 1) as int) =~= a.device_key);
    assert(y.skip((rid.len() + 1) as int) =~= b.device_key);
}

/// The text has one of the words that keyboards are named by.
pub open spec fn has_keyboard_word(lower: Seq<char>, word: Seq<char>) -> bool {
    occurs_in(lower, word) && (word == "keyboard"@ || word == "keys"@ || word == "g715"@ || word
        == "g915"@ || word == "g815"@)
}

/// The text has one of the words that mice are named by.
pub open spec fn has_mouse_word(lower: Seq<char>, word: Seq<char>) -> bool {
    occurs_in(lower, word) && (word == "mouse"@ || word == "mx master"@ || word == "mx anywhere"@
        || word == "superlight"@ || word == "pro x wireless"@ || word == "pro wireless"@ || word
        == "g pro"@ || word == "g502"@ || word == "g703"@ || word == "g903"@)
}

/// The kind of a device by the words in its name, in whatever case: a keyboard where one
/// of the keyboard words is in it, else a mouse where one of the mouse words is, else
/// neither.
pub proof fn law_kind_by_words(name: Seq<char>)
    ensures
        (exists|word: Seq<char>| #[trigger] has_keyboard_word(lower_text(name), word)) ==> kind_of(
            name,
        ) == "keyboard"@,
        (forall|word: Seq<char>| !#[trigger] has_keyboard_word(lower_text(name), word)) && (exists|
            word: Seq<char>,
        | #[trigger] has_mouse_word(lower_text(name), word)) ==> kind_of(name) == "mouse"@,
        (forall|word: Seq<char>| !#[trigger] has_keyboard_word(lower_text(name), word)) && (forall|
            word: Seq<char>,
        | !#[trigger] has_mouse_word(lower_text(name), word)) ==> kind_of(name) == "other"@,
{
    let lower = lower_text(name);
    assert(has_keyboard_word(lower, "keyboard"@) == occurs_in(lower, "keyboard"@));
    assert(has_keyboard_word(lower, "keys"@) == occurs_in(lower, "keys"@));
    assert(has_keyboard_word(lower, "g715"@) == occurs_in(lower, "g715"@));
    assert(has_keyboard_word(lower, "g915"@) == occurs_in(lower, "g915"@));
    assert(has_keyboard_word(lower, "g815"@) == occurs_in(lower, "g815"@));
    assert(has_mouse_word(lower, "mouse"@) == occurs_in(lower, "mouse"@));
    assert(has_mouse_word(lower, "mx master"@) == occurs_in(lower, "mx master"@));
    assert(has_mouse_word(lower, "mx anywhere"@) == occurs_in(lower, "mx anywhere"@));
    assert(has_mouse_word(lower, "superlight"@) == occurs_in(lower, "superlight"@));
    assert(has_mouse_word(lower, "pro x wireless"@) == occurs_in(lower, "pro x wireless"@));
    assert(has_mouse_word(lower, "pro wireless"@) == occurs_in(lower, "pro wireless"@));
    assert(has_mouse_word(lower, "g pro"@) == occurs_in(lower, "g pro"@));
    assert(has_mouse_word(lower, "g502"@) == occurs_in(lower, "g502"@));
    assert(has_mouse_word(lower, "g703"@) == occurs_in(lower, "g703"@));
    assert(has_mouse_word(lower, "g903"@) == occurs_in(lower, "g903"@));
}

/// The kind does not depend on the case of the name, and what stands around the name of a
/// keyboard does not make it anything else.
pub proof fn law_kind_of_longer_name(name: Seq<char>, before: Seq<char>, after: Seq<char>)
    ensures
        kind_of(lower_text(name)) == kind_of(name),
        names_keyboard(lower_text(name)) ==> kind_of(before + name + after) == "keyboard"@,
{
    if name.len() > 0 {
        law_lowered(name, 0);
    } else {
        assert(lower_text(lower_text(name)) =~= lower_text(name));
    }
    let longer = before + name + after;
    let lower = lower_text(longer);
    assert(lower =~= lower_text(before) + lower_text(name) + lower_text(after));
    assert forall|word: Seq<char>| #[trigger] occurs_in(lower_text(name), word) implies occurs_in(
        lower,
        word,
    ) by {
        let at = choose|at: int| #[trigger] occurs_at(lower_text(name), word, at);
        let shifted = before.len() + at;
        assert(lower.subrange(shifted, shifted + word.len()) =~= lower_text(name).subrange(
            at,
            at + word.len(),
        ));
        assert(occurs_at(lower, word, shifted));
    }
}

/// The id of a receiver reads as the 32 lowest bits of the hash, in eight lower-case
/// digits.
pub proof fn law_id_is_the_low_half(hash: u64)
    ensures
        hash_id(hash).len() == 8,
        number_of(hash_id(hash), 16) == hash as u32,
        forall|i: int|
            0 <= i < 8 ==> '0' <= (#[trigger] hash_id(hash)[i]) <= '9' || 'a' <= hash_id(hash)[i]
                <= 'f',
{
    reveal_with_fuel(pow, 9);
    assert(hash as u32 == hash % 0x1_0000_0000) by (bit_vector);
    law_hex_digits_value((hash % 0x1_0000_0000) as nat, 8, LOWER);
}

/// A widget that fits stands 20 from the right edge and 60 from the bottom; one that does
/// not fit stands at the left or upper edge.
pub proof fn law_widget_margins(screen: u32, size: u32)
    ensures
        size + 20 <= screen ==> room(screen, size, MARGIN_RIGHT) + size + 20 == screen,
        size + 20 > screen ==> room(screen, size, MARGIN_RIGHT) == 0,
        size + 60 <= screen ==> room(screen, size, MARGIN_BOTTOM) + size + 60 == screen,
        size + 60 > screen ==> room(screen, size, MARGIN_BOTTOM) == 0,
{
}

} // verus!
