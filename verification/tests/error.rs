use logibar::hid::error::HidError;

#[test]
fn every_error_has_its_text() {
    let texts = [
        (HidError::WriteFailed, "HID write failed"),
        (HidError::ReadFailed, "HID read failed"),
        (
            HidError::ErrorResponse { feature: 0x0B },
            "HID++ error response for feature 0x0B",
        ),
        (
            HidError::NoResponse { retries: 5, feature: 0x06 },
            "no response after 5 attempts for feature 0x06",
        ),
        (HidError::RegisterWriteFailed, "register write failed"),
        (HidError::RegisterReadFailed, "register read failed"),
        (
            HidError::RegisterRejected { register: 0x02 },
            "receiver rejected register 0x02",
        ),
        (
            HidError::RegisterUnacknowledged { register: 0x00 },
            "no acknowledgement for register 0x00",
        ),
        (
            HidError::EnumerationFailed { slot: 3 },
            "feature enumeration failed for index 3",
        ),
        (HidError::NameMissing, "DEVICE_NAME_AND_TYPE not found"),
        (HidError::NameEmpty, "empty name length"),
        (
            HidError::UnsupportedBattery { feature_id: 0x1F20 },
            "unsupported battery feature 0x1F20",
        ),
        (
            HidError::ReceiverUnavailable { pid: 0xC547 },
            "failed to open receiver C547",
        ),
        (
            HidError::NotifierMissing { pid: 0xC547 },
            "receiver C547 has no short collection",
        ),
        (
            HidError::NotifierUnavailable { pid: 0x00AB },
            "failed to open receiver 00AB notifier",
        ),
    ];
    for (err, text) in texts {
        assert_eq!(err.message(), text);
    }
}
