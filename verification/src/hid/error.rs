//! What can go wrong in a conversation with a receiver or a device.

use crate::text::{
    decimal, hex_digits, law_decimal_value, law_hex_digits_value, number_of, push_decimal, push_hex,
    UPPER,
};
use vstd::prelude::*;

verus! {

#[derive(Clone, Copy, Debug, PartialEq, Eq, Structural)]
pub enum HidError {
    /// A request could not be written.
    WriteFailed,
    /// Waiting for a response failed.
    ReadFailed,
    /// The device answered with an error report.
    ErrorResponse { feature: u8 },
    /// No attempt was answered.
    NoResponse { retries: usize, feature: u8 },
    /// A register request could not be written.
    RegisterWriteFailed,
    /// Waiting for a register acknowledgement failed.
    RegisterReadFailed,
    /// The receiver answered a register request with an error report.
    RegisterRejected { register: u8 },
    /// The receiver acknowledged no attempt of a register request.
    RegisterUnacknowledged { register: u8 },
    /// Every attempt to enumerate the features of a device failed.
    EnumerationFailed { slot: u8 },
    /// The device has no name feature.
    NameMissing,
    /// The device reports a name of no bytes.
    NameEmpty,
    /// The feature is not one that a battery is read from.
    UnsupportedBattery { feature_id: u16 },
    /// The device interface of a receiver could not be opened.
    ReceiverUnavailable { pid: u16 },
    /// The receiver exposes no short collection.
    NotifierMissing { pid: u16 },
    /// The short collection of a receiver could not be opened.
    NotifierUnavailable { pid: u16 },
}

/// The text shown for an error.
pub open spec fn error_text(err: HidError) -> Seq<char> {
    match err {
        HidError::WriteFailed => "HID write failed"@,
        HidError::ReadFailed => "HID read failed"@,
        HidError::ErrorResponse { feature } => "HID++ error response for feature 0x"@ + hex_digits(
            feature as nat,
            2,
            UPPER,
        ),
        HidError::NoResponse { retries, feature } => "no response after "@ + decimal(retries as nat)
            + " attempts for feature 0x"@ + hex_digits(feature as nat, 2, UPPER),
        HidError::RegisterWriteFailed => "register write failed"@,
        HidError::RegisterReadFailed => "register read failed"@,
        HidError::RegisterRejected { register } => "receiver rejected register 0x"@ + hex_digits(
            register as nat,
            2,
            UPPER,
        ),
        HidError::RegisterUnacknowledged { register } => "no acknowledgement for register 0x"@
            + hex_digits(register as nat, 2, UPPER),
        HidError::EnumerationFailed { slot } => "feature enumeration failed for index "@ + decimal(
            slot as nat,
        ),
        HidError::NameMissing => "DEVICE_NAME_AND_TYPE not found"@,
        HidError::NameEmpty => "empty name length"@,
        HidError::UnsupportedBattery { feature_id } => "unsupported battery feature 0x"@
            + hex_digits(feature_id as nat, 4, UPPER),
        HidError::ReceiverUnavailable { pid } => "failed to open receiver "@ + hex_digits(
            pid as nat,
            4,
            UPPER,
        ),
        HidError::NotifierMissing { pid } => "receiver "@ + hex_digits(pid as nat, 4, UPPER)
            + " has no short collection"@,
        HidError::NotifierUnavailable { pid } => "failed to open receiver "@ + hex_digits(
            pid as nat,
            4,
            UPPER,
        ) + " notifier"@,
    }
}

impl HidError {
    /// The text shown for this error.
    pub fn message(&self) -> (text: String)
        ensures
            text@ == error_text(*self),
    {
        match *self {
            HidError::WriteFailed => "HID write failed".to_owned(),
            HidError::ReadFailed => "HID read failed".to_owned(),
            HidError::ErrorResponse { feature } => {
                let mut text: String = "HID++ error response for feature 0x".to_owned();
                push_hex(&mut text, feature as u64, 2, UPPER);
                text
            },
            HidError::NoResponse { retries, feature } => {
                let mut text: String = "no response after ".to_owned();
                push_decimal(&mut text, retries as u64);
                text.append(" attempts for feature 0x");
                push_hex(&mut text, feature as u64, 2, UPPER);
                text
            },
            HidError::RegisterWriteFailed => "register write failed".to_owned(),
            HidError::RegisterReadFailed => "register read failed".to_owned(),
            HidError::RegisterRejected { register } => {
                let mut text: String = "receiver rejected register 0x".to_owned();
                push_hex(&mut text, register as u64, 2, UPPER);
                text
            },
            HidError::RegisterUnacknowledged { register } => {
                let mut text: String = "no acknowledgement for register 0x".to_owned();
                push_hex(&mut text, register as u64, 2, UPPER);
                text
            },
            HidError::EnumerationFailed { slot } => {
                let mut text: String = "feature enumeration failed for index ".to_owned();
                push_decimal(&mut text, slot as u64);
                text
            },
            HidError::NameMissing => "DEVICE_NAME_AND_TYPE not found".to_owned(),
            HidError::NameEmpty => "empty name length".to_owned(),
            HidError::UnsupportedBattery { feature_id } => {
                let mut text: String = "unsupported battery feature 0x".to_owned();
                push_hex(&mut text, feature_id as u64, 4, UPPER);
                text
            },
            HidError::ReceiverUnavailable { pid } => {
                let mut text: String = "failed to open receiver ".to_owned();
                push_hex(&mut text, pid as u64, 4, UPPER);
                text
            },
            HidError::NotifierMissing { pid } => {
                let mut text: String = "receiver ".to_owned();
                push_hex(&mut text, pid as u64, 4, UPPER);
                text.append(" has no short collection");
                text
            },
            HidError::NotifierUnavailable { pid } => {
                let mut text: String = "failed to open receiver ".to_owned();
                push_hex(&mut text, pid as u64, 4, UPPER);
                text.append(" notifier");
                text
            },
        }
    }
}

proof fn lemma_split(front: Seq<char>, back: Seq<char>)
    ensures
        (front + back).take(front.len() as int) == front,
        (front + back).skip(front.len() as int) == back,
{
    assert((front + back).take(front.len() as int) =~= front);
    assert((front + back).skip(front.len() as int) =~= back);
}

/// The number in the text of an error of a feature or a register is that number, in two
/// hex digits at the end; the words in front tell which of the four errors it is.
pub proof fn law_numbered_error_texts(number: u8, retries: usize)
    ensures
        ({
            let text = error_text(HidError::ErrorResponse { feature: number });
            &&& text.take(35) == "HID++ error response for feature 0x"@
            &&& number_of(text.skip(35), 16) == number
            &&& text.len() == 37
        }),
        ({
            let text = error_text(HidError::RegisterRejected { register: number });
            &&& text.take(29) == "receiver rejected register 0x"@
            &&& number_of(text.skip(29), 16) == number
            &&& text.len() == 31
        }),
        ({
            let text = error_text(HidError::RegisterUnacknowledged { register: number });
            &&& text.take(34) == "no acknowledgement for register 0x"@
            &&& number_of(text.skip(34), 16) == number
            &&& text.len() == 36
        }),
        ({
            let text = error_text(HidError::NoResponse { retries, feature: number });
            let digits = text.len() - 18 - 24 - 2;
            &&& text.take(18) == "no response after "@
            &&& number_of(text.subrange(18, 18 + digits), 10) == retries
            &&& text.subrange(18 + digits, 18 + digits + 24) == " attempts for feature 0x"@
            &&& number_of(text.skip(text.len() - 2), 16) == number
        }),
{
    reveal_with_fuel(vstd::arithmetic::power::pow, 3);
    law_hex_digits_value(number as nat, 2, UPPER);
    law_decimal_value(retries as nat);
    let digits = hex_digits(number as nat, 2, UPPER);
    reveal_strlit("HID++ error response for feature 0x");
    reveal_strlit("receiver rejected register 0x");
    reveal_strlit("no acknowledgement for register 0x");
    reveal_strlit("no response after ");
    reveal_strlit(" attempts for feature 0x");
    lemma_split("HID++ error response for feature 0x"@, digits);
    lemma_split("receiver rejected register 0x"@, digits);
    lemma_split("no acknowledgement for register 0x"@, digits);
    let text = error_text(HidError::NoResponse { retries, feature: number });
    let count = decimal(retries as nat);
    assert(text.take(18) =~= "no response after "@);
    let end = 18 + count.len() as int;
    assert(text.subrange(18, end) =~= count);
    assert(text.subrange(end, end + 24) =~= " attempts for feature 0x"@);
    assert(text.skip(text.len() - 2) =~= digits);
}

/// The number in the text of an error of a slot, a battery feature or a receiver is that
/// number: the slot in decimal, the others in four hex digits.
pub proof fn law_device_error_texts(slot: u8, id: u16)
    ensures
        ({
            let text = error_text(HidError::EnumerationFailed { slot });
            &&& text.take(37) == "feature enumeration failed for index "@
            &&& number_of(text.skip(37), 10) == slot
        }),
        ({
            let text = error_text(HidError::UnsupportedBattery { feature_id: id });
            &&& text.take(30) == "unsupported battery feature 0x"@
            &&& number_of(text.skip(30), 16) == id
            &&& text.len() == 34
        }),
        ({
            let text = error_text(HidError::ReceiverUnavailable { pid: id });
            &&& text.take(24) == "failed to open receiver "@
            &&& number_of(text.skip(24), 16) == id
            &&& text.len() == 28
        }),
        ({
            let text = error_text(HidError::NotifierMissing { pid: id });
            &&& text.take(9) == "receiver "@
            &&& number_of(text.subrange(9, 13), 16) == id
            &&& text.skip(13) == " has no short collection"@
        }),
        ({
            let text = error_text(HidError::NotifierUnavailable { pid: id });
            &&& text.take(24) == "failed to open receiver "@
            &&& number_of(text.subrange(24, 28), 16) == id
            &&& text.skip(28) == " notifier"@
        }),
{
    reveal_with_fuel(vstd::arithmetic::power::pow, 5);
    law_hex_digits_value(id as nat, 4, UPPER);
    law_decimal_value(slot as nat);
    let digits = hex_digits(id as nat, 4, UPPER);
    reveal_strlit("feature enumeration failed for index ");
    reveal_strlit("unsupported battery feature 0x");
    reveal_strlit("failed to open receiver ");
    reveal_strlit("receiver ");
    reveal_strlit(" has no short collection");
    reveal_strlit(" notifier");
    lemma_split("feature enumeration failed for index "@, decimal(slot as nat));
    lemma_split("unsupported battery feature 0x"@, digits);
    lemma_split("failed to open receiver "@, digits);
    let missing = error_text(HidError::NotifierMissing { pid: id });
    assert(missing.take(9) =~= "receiver "@);
    assert(missing.subrange(9, 13) =~= digits);
    assert(missing.skip(13) =~= " has no short collection"@);
    let unavailable = error_text(HidError::NotifierUnavailable { pid: id });
    assert(unavailable.take(24) =~= "failed to open receiver "@);
    assert(unavailable.subrange(24, 28) =~= digits);
    assert(unavailable.skip(28) =~= " notifier"@);
}

} // verus!
