//! Battery features: which one a device has, how it is asked and what it answers.

use crate::hid::error::HidError;
use crate::hid::protocol::{
    charging_flags, charging_status, get_battery_status, get_battery_voltage,
    get_unified_battery_status, is_charging_from_flags, is_charging_from_status, law_charging_bits,
    law_discharge_curve, lowest_millivolts, mv_to_percent, percent_of, request_msg, ShortMsg,
};
use std::collections::HashMap;
use vstd::prelude::*;

verus! {

broadcast use vstd::std_specs::hash::group_hash_axioms;

/// Feature ids a battery is read from, in order of preference.
pub const BATTERY_STATUS: u16 = 0x1000;

pub const BATTERY_VOLTAGE: u16 = 0x1001;

pub const UNIFIED_BATTERY: u16 = 0x1004;

/// A battery can be read from the feature.
pub open spec fn supported_battery(feature_id: u16) -> bool {
    feature_id == BATTERY_STATUS || feature_id == BATTERY_VOLTAGE || feature_id == UNIFIED_BATTERY
}

/// Two bytes as a big-endian number.
pub open spec fn big_endian(high: u8, low: u8) -> u16 {
    (high * 256 + low) as u16
}

/// Two bytes as a big-endian number.
pub fn join_bytes(high: u8, low: u8) -> (n: u16)
    ensures
        n == big_endian(high, low),
{
    assert(((high as u16) << 8) | low as u16 == high * 256 + low) by (bit_vector);
    ((high as u16) << 8) | low as u16
}

/// The request that reads the battery of the device at `slot` from the feature
/// `feature_id`, which stands at `feature_idx` in its table.
pub open spec fn battery_msg(slot: u8, feature_id: u16, feature_idx: u8) -> Result<
    ShortMsg,
    HidError,
> {
    if feature_id == BATTERY_STATUS || feature_id == BATTERY_VOLTAGE {
        Ok(request_msg(slot, feature_idx, 0, 0))
    } else if feature_id == UNIFIED_BATTERY {
        Ok(request_msg(slot, feature_idx, 1, 0))
    } else {
        Err(HidError::UnsupportedBattery { feature_id })
    }
}

/// The charge in percent and whether the device is charging, from the reply to
/// [`battery_msg`]. Feature 0x1001 reports a voltage, the others a percentage.
pub open spec fn battery_reading(feature_id: u16, header: [u8; 7]) -> Result<(u8, bool), HidError> {
    if feature_id == BATTERY_VOLTAGE {
        Ok((percent_of(big_endian(header[4], header[5])), charging_flags(header[6])))
    } else if feature_id == BATTERY_STATUS || feature_id == UNIFIED_BATTERY {
        Ok((header[4], charging_status(header[6])))
    } else {
        Err(HidError::UnsupportedBattery { feature_id })
    }
}

/// The preferred battery feature of a device, with its index in the table.
pub open spec fn preferred_battery(features: Map<u16, u8>) -> Option<(u16, u8)> {
    if features.contains_key(BATTERY_STATUS) {
        Some((BATTERY_STATUS, features[BATTERY_STATUS]))
    } else if features.contains_key(BATTERY_VOLTAGE) {
        Some((BATTERY_VOLTAGE, features[BATTERY_VOLTAGE]))
    } else if features.contains_key(UNIFIED_BATTERY) {
        Some((UNIFIED_BATTERY, features[UNIFIED_BATTERY]))
    } else {
        None
    }
}

/// The request that reads a battery, or an error for a feature that is not a
/// battery feature.
pub fn battery_request(slot: u8, feature_id: u16, feature_idx: u8) -> (msg: Result<
    ShortMsg,
    HidError,
>)
    ensures
        msg == battery_msg(slot, feature_id, feature_idx),
{
    match feature_id {
        0x1000 => Ok(get_battery_status(slot, feature_idx)),
        0x1001 => Ok(get_battery_voltage(slot, feature_idx)),
        0x1004 => Ok(get_unified_battery_status(slot, feature_idx)),
        _ => Err(HidError::UnsupportedBattery { feature_id }),
    }
}

/// Percentage and charging state in the reply to a battery request.
pub fn read_battery(feature_id: u16, header: &[u8; 7]) -> (reading: Result<(u8, bool), HidError>)
    ensures
        reading == battery_reading(feature_id, *header),
{
    match feature_id {
        0x1000 | 0x1004 => Ok((header[4], is_charging_from_status(header[6]))),
        0x1001 => {
            let mv: u16 = join_bytes(header[4], header[5]);
            Ok((mv_to_percent(mv), is_charging_from_flags(header[6])))
        },
        _ => Err(HidError::UnsupportedBattery { feature_id }),
    }
}

/// The preferred battery feature among `features`, with its index.
pub fn pick_battery(features: &HashMap<u16, u8>) -> (battery: Option<(u16, u8)>)
    ensures
        battery == preferred_battery(features@),
{
    if let Some(idx) = features.get(&BATTERY_STATUS) {
        return Some((BATTERY_STATUS, *idx));
    }
    if let Some(idx) = features.get(&BATTERY_VOLTAGE) {
        return Some((BATTERY_VOLTAGE, *idx));
    }
    if let Some(idx) = features.get(&UNIFIED_BATTERY) {
        return Some((UNIFIED_BATTERY, *idx));
    }
    None
}

/// A battery feature that was picked can be asked and its reply can be read.
pub proof fn law_picked_battery_is_readable(features: Map<u16, u8>, slot: u8, header: [u8; 7])
    ensures
        preferred_battery(features) matches Some((id, idx)) ==> features.contains_key(id)
            && features[id] == idx && supported_battery(id) && battery_msg(slot, id, idx) is Ok
            && battery_reading(id, header) is Ok,
        preferred_battery(features) is None ==> forall|id: u16|
            supported_battery(id) ==> !features.contains_key(id),
{
}

/// A voltage reading is a percentage: it never exceeds 100.
pub proof fn law_voltage_reading_is_percentage(header: [u8; 7])
    ensures
        battery_reading(BATTERY_VOLTAGE, header) matches Ok((percent, charging)) ==> percent <= 100,
{
    crate::hid::protocol::lemma_percent_exists(big_endian(header[4], header[5]));
}

/// Features 0x1000 and 0x1004 report the charge as byte 4 of the reply, whatever the
/// other bytes are, and charging by byte 6 (1, 2 or 4), whatever the others are.
pub proof fn law_percentage_is_byte_four(feature_id: u16, header: [u8; 7], other: [u8; 7])
    requires
        feature_id == 0x1000 || feature_id == 0x1004,
    ensures
        battery_reading(feature_id, header) is Ok,
        battery_reading(feature_id, header)->Ok_0.0 == header[4],
        battery_reading(feature_id, header)->Ok_0.1 <==> header[6] == 1 || header[6] == 2
            || header[6] == 4,
        header[4] == other[4] ==> battery_reading(feature_id, header)->Ok_0.0 == battery_reading(
            feature_id,
            other,
        )->Ok_0.0,
{
}

/// Feature 0x1001 reports a voltage, high byte first in bytes 4 and 5: the charge is at
/// least so many percent exactly from the lowest voltage for it on. It is charging where
/// bit 7 of byte 6 is set and its three lowest bits are not 2.
pub proof fn law_voltage_is_bytes_four_and_five(header: [u8; 7], percent: int)
    requires
        1 <= percent <= 100,
    ensures
        battery_reading(0x1001, header) is Ok,
        battery_reading(0x1001, header)->Ok_0.0 >= percent <==> header[4] * 256 + header[5]
            >= lowest_millivolts()[percent - 1],
        battery_reading(0x1001, header)->Ok_0.0 <= 100,
        battery_reading(0x1001, header)->Ok_0.1 <==> header[6] & 0x80 != 0 && header[6] & 0x07 != 2,
{
    law_discharge_curve(big_endian(header[4], header[5]), percent);
    law_charging_bits(0, header[6]);
}

/// No other feature is asked for a battery or read as one.
pub proof fn law_other_features_have_no_battery(slot: u8, id: u16, idx: u8, header: [u8; 7])
    requires
        id != 0x1000,
        id != 0x1001,
        id != 0x1004,
    ensures
        !supported_battery(id),
        battery_msg(slot, id, idx) == Err::<ShortMsg, HidError>(
            HidError::UnsupportedBattery { feature_id: id },
        ),
        battery_reading(id, header) == Err::<(u8, bool), HidError>(
            HidError::UnsupportedBattery { feature_id: id },
        ),
{
}

/// A battery is asked for at the slot and the table index that were given, without
/// params: function 1 of feature 0x1004, function 0 of the other two.
pub proof fn law_battery_request_goes_to_the_device(slot: u8, id: u16, idx: u8)
    requires
        id == 0x1000 || id == 0x1001 || id == 0x1004,
    ensures
        supported_battery(id),
        battery_msg(slot, id, idx) matches Ok(msg) && msg.device_index == slot && msg.feature_index
            == idx && msg.function_id == (if id == 0x1004 {
            1u8
        } else {
            0u8
        }) && msg.params[0] == 0 && msg.params[1] == 0 && msg.params[2] == 0,
{
}

/// Of the battery features of a device 0x1000 goes before 0x1001, and both before 0x1004;
/// the one that is picked is used at its own index.
pub proof fn law_battery_preference(features: Map<u16, u8>)
    ensures
        features.contains_key(0x1000) ==> preferred_battery(features) == Some(
            (0x1000u16, features[0x1000]),
        ),
        !features.contains_key(0x1000) && features.contains_key(0x1001) ==> preferred_battery(
            features,
        ) == Some((0x1001u16, features[0x1001])),
        !features.contains_key(0x1000) && !features.contains_key(0x1001) && features.contains_key(
            0x1004,
        ) ==> preferred_battery(features) == Some((0x1004u16, features[0x1004])),
        !features.contains_key(0x1000) && !features.contains_key(0x1001) && !features.contains_key(
            0x1004,
        ) ==> preferred_battery(features) is None,
{
}

/// Two bytes are joined high byte first: each of them can be read back.
pub proof fn law_joined_bytes(high: u8, low: u8)
    ensures
        big_endian(high, low) / 256 == high,
        big_endian(high, low) % 256 == low,
{
}

} // verus!
