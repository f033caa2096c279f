//! The HID++ wire format.
//!
//! A HID++ 2.0 short report is 7 bytes:
//!   `[0]` = 0x10 (short report id)
//!   `[1]` = device index
//!   `[2]` = feature index
//!   `[3]` = (function id << 4) | software id
//!   `[4..7]` = params (3 bytes)

use vstd::prelude::*;

verus! {

pub const SHORT_REPORT_ID: u8 = 0x10;

/// HID++ long report id (20 bytes). Modern devices reply on this channel.
pub const LONG_REPORT_ID: u8 = 0x11;

pub const SW_ID: u8 = 0x0A;

/// Maximum times a timed-out or busy response is retried, the first attempt counted.
pub const MAX_RETRIES: usize = 5;

/// Milliseconds to wait for a response before retrying. Wireless round-trips
/// through the receiver can take a few hundred milliseconds.
pub const READ_TIMEOUT_MS: i32 = 500;

/// Budget for presence pings during slot discovery, the fallback for receivers
/// that push no connection notifications: cheaper than the data budget, generous
/// enough for a linked but idle device.
pub const PING_TIMEOUT_MS: i32 = 300;

pub const PING_RETRIES: usize = 2;

/// The error code of a HID++ 2.0 device that is busy.
pub const ERROR_BUSY: u8 = 0x08;

/// What an arriving HID++ report means. Replies to a pending request are matched
/// separately, by exact feature index and software id.
#[derive(Clone, Copy, Debug, PartialEq, Eq, Structural)]
pub enum ReportClass {
    /// Reply to one of our HID++ 2.0 feature requests (software id == [`SW_ID`]).
    Reply,
    /// Reply or ack to a HID++ 1.0 register request (sub-id 0x80 set, 0x81 get).
    RegisterReply { sub_id: u8 },
    /// Unsolicited HID++ 2.0 feature event (software id nibble == 0).
    FeatureEvent { device_index: u8, feature_index: u8 },
    /// HID++ 1.0 device-connection notification (sub-id 0x41).
    Connection { device_index: u8 },
    /// Other HID++ 1.0 receiver notification (sub-id 0x40..=0x7F), or a reply
    /// addressed to another software id.
    Notification { sub_id: u8 },
    /// Error reply (1.0 sub-id 0x8F or 2.0 feature index 0xFF).
    Error,
}

/// The byte is the id of a HID++ report.
pub open spec fn is_report_id(b: u8) -> bool {
    b == SHORT_REPORT_ID || b == LONG_REPORT_ID
}

/// The seven bytes of `buf` from position `at` on.
pub open spec fn header_at(buf: Seq<u8>, at: int) -> [u8; 7] {
    [
        buf[at],
        buf[at + 1],
        buf[at + 2],
        buf[at + 3],
        buf[at + 4],
        buf[at + 5],
        buf[at + 6],
    ]
}

/// The HID++ header in the first `n` bytes of `buf`: they may be led by one byte
/// that is no report id.
pub open spec fn header_of(buf: Seq<u8>, n: int) -> Option<[u8; 7]> {
    if n >= 8 && !is_report_id(buf[0]) {
        Some(header_at(buf, 1))
    } else if n >= 7 {
        Some(header_at(buf, 0))
    } else {
        None
    }
}

/// Normalize a raw HID read of `n` bytes into the 7-byte HID++ header (report id
/// first).
///
/// A read may or may not have a byte before the report id; a genuine HID++ report
/// starts with 0x10 (short) or 0x11 (long). Returns `None` for reads too short to
/// be a HID++ header.
pub fn normalize_report(buf: &[u8], n: usize) -> (header: Option<[u8; 7]>)
    requires
        n >= 7 ==> buf@.len() >= 7,
        n >= 8 && !is_report_id(buf@[0]) ==> buf@.len() >= 8,
    ensures
        header == header_of(buf@, n as int),
{
    if n >= 8 && buf[0] != SHORT_REPORT_ID && buf[0] != LONG_REPORT_ID {
        // a byte was prepended: skip it
        Some([buf[1], buf[2], buf[3], buf[4], buf[5], buf[6], buf[7]])
    } else if n >= 7 {
        Some([buf[0], buf[1], buf[2], buf[3], buf[4], buf[5], buf[6]])
    } else {
        None
    }
}

/// The report is an error: 0x8F from a HID++ 1.0 receiver, 0xFF from a HID++ 2.0
/// device.
pub open spec fn error_report(report: [u8; 7]) -> bool {
    report[2] == 0x8F || report[2] == 0xFF
}

/// The report is a HID++ 2.0 error with the code for a device that is busy. An error
/// names the feature it is about (`[3]`), the function (`[4]`) and its code (`[5]`).
pub open spec fn busy_report(report: [u8; 7]) -> bool {
    report[2] == 0xFF && report[5] == ERROR_BUSY
}

/// The software id of a report: the low nibble of its fourth byte.
pub open spec fn software_id(report: [u8; 7]) -> u8 {
    (report[3] % 16) as u8
}

/// What a report means. The byte that tells is `report[2]`: the two error codes,
/// then register replies (0x80 and up), receiver notifications (0x40 to 0x7F), and
/// below that HID++ 2.0, where the software id separates a reply from an event.
pub open spec fn class_of(report: [u8; 7]) -> ReportClass {
    if error_report(report) {
        ReportClass::Error
    } else if report[2] >= 0x80 {
        ReportClass::RegisterReply { sub_id: report[2] }
    } else if report[2] == 0x41 {
        ReportClass::Connection { device_index: report[1] }
    } else if report[2] >= 0x40 {
        ReportClass::Notification { sub_id: report[2] }
    } else if software_id(report) == SW_ID {
        ReportClass::Reply
    } else if software_id(report) == 0 {
        ReportClass::FeatureEvent { device_index: report[1], feature_index: report[2] }
    } else {
        ReportClass::Notification { sub_id: software_id(report) }
    }
}

/// Classify a normalized 7-byte report (`[0]` report id, `[1]` device index, `[2]`
/// sub-id or feature index, `[3]` register address or function and software id).
///
/// HID++ 1.0 (receiver) and 2.0 (device) share the wire frame. Device feature
/// indices for battery and root are small (below 0x40), so they never collide with
/// the 1.0 sub-id ranges.
pub fn classify(report: &[u8; 7]) -> (class: ReportClass)
    ensures
        class == class_of(*report),
{
    let id_byte: u8 = report[2];
    if id_byte == 0x8F || id_byte == 0xFF {
        return ReportClass::Error;
    }
    if id_byte >= 0x80 {
        return ReportClass::RegisterReply { sub_id: id_byte };
    }
    if id_byte >= 0x40 {
        return if id_byte == 0x41 {
            ReportClass::Connection { device_index: report[1] }
        } else {
            ReportClass::Notification { sub_id: id_byte }
        };
    }
    let sw_id: u8 = ShortMsg::sw_id(report);
    if sw_id == SW_ID {
        ReportClass::Reply
    } else if sw_id == 0x00 {
        ReportClass::FeatureEvent { device_index: report[1], feature_index: report[2] }
    } else {
        // A reply addressed to some other software id: not ours to act on.
        ReportClass::Notification { sub_id: sw_id }
    }
}

#[derive(Clone, Copy, Debug, PartialEq, Eq)]
pub struct ShortMsg {
    pub device_index: u8,
    pub feature_index: u8,
    pub function_id: u8,
    pub params: [u8; 3],
}

impl ShortMsg {
    /// The six bytes that follow the report id, the same in short and long reports.
    pub open spec fn payload(self) -> Seq<u8> {
        seq![
            self.device_index,
            self.feature_index,
            ((self.function_id % 16) * 16 + SW_ID) as u8,
            self.params[0],
            self.params[1],
            self.params[2],
        ]
    }

    /// The short report that carries this message.
    pub open spec fn short_frame(self) -> Seq<u8> {
        seq![SHORT_REPORT_ID] + self.payload()
    }

    /// The long report that carries this message, padded with zeros.
    pub open spec fn long_frame(self) -> Seq<u8> {
        seq![LONG_REPORT_ID] + self.payload() + Seq::new(13, |i: int| 0u8)
    }

    /// The message in a 7-byte report.
    pub open spec fn of_report(report: [u8; 7]) -> ShortMsg {
        ShortMsg {
            device_index: report[1],
            feature_index: report[2],
            function_id: (report[3] / 16) as u8,
            params: [report[4], report[5], report[6]],
        }
    }

    pub fn new(device_index: u8, feature_index: u8, function_id: u8, params: [u8; 3]) -> (msg: Self)
        ensures
            msg == (ShortMsg { device_index, feature_index, function_id, params }),
    {
        Self { device_index, feature_index, function_id, params }
    }

    /// Write the 6-byte payload (device index, feature index, function and software
    /// id, 3 params) behind the report-id byte.
    fn write_payload<const N: usize>(&self, out: &mut [u8; N])
        requires
            N >= 7,
        ensures
            final(out)@ == old(out)@.take(1) + self.payload() + old(out)@.skip(7),
    {
        let function_id: u8 = self.function_id;
        assert((function_id << 4) | 0x0A == (function_id % 16) * 16 + 0x0A) by (bit_vector);
        out[1] = self.device_index;
        out[2] = self.feature_index;
        out[3] = (function_id << 4) | SW_ID;
        out[4] = self.params[0];
        out[5] = self.params[1];
        out[6] = self.params[2];
    }

    /// Encode into a 7-byte write buffer (report id first).
    pub fn encode(&self) -> (buf: [u8; 7])
        ensures
            buf@ == self.short_frame(),
    {
        let mut buf: [u8; 7] = [0u8; 7];
        buf[0] = SHORT_REPORT_ID;
        self.write_payload(&mut buf);
        buf
    }

    /// Encode into a 20-byte HID++ long write buffer (report id 0x11 first).
    ///
    /// The header and our 3 param bytes occupy the same offsets as in the short
    /// report; the rest is zero. Modern devices answer on the long channel, so
    /// requests go out as long.
    pub fn encode_long(&self) -> (buf: [u8; 20])
        ensures
            buf@ == self.long_frame(),
    {
        let mut buf: [u8; 20] = [0u8; 20];
        buf[0] = LONG_REPORT_ID;
        self.write_payload(&mut buf);
        buf
    }

    /// Decode from a 7-byte read buffer.
    pub fn decode(buf: &[u8; 7]) -> (msg: Self)
        ensures
            msg == ShortMsg::of_report(*buf),
    {
        let b: u8 = buf[3];
        assert((b & 0xF0) >> 4 == b / 16) by (bit_vector);
        Self {
            device_index: buf[1],
            feature_index: buf[2],
            function_id: (b & 0xF0) >> 4,
            params: [buf[4], buf[5], buf[6]],
        }
    }

    /// The software id of a report.
    pub fn sw_id(buf: &[u8; 7]) -> (id: u8)
        ensures
            id == software_id(*buf),
    {
        let b: u8 = buf[3];
        assert(b & 0x0F == b % 16) by (bit_vector);
        b & 0x0F
    }

    /// True when this is an error report rather than a normal reply: 0x8F is a
    /// HID++ 1.0 receiver error (for instance for an empty slot), 0xFF a HID++ 2.0
    /// device error. Neither is a valid feature index.
    pub fn is_error(buf: &[u8; 7]) -> (error: bool)
        ensures
            error == error_report(*buf),
    {
        buf[2] == 0x8F || buf[2] == 0xFF
    }

    /// True when this is the error report of a device that is busy.
    pub fn is_busy(buf: &[u8; 7]) -> (busy: bool)
        ensures
            busy == busy_report(*buf),
    {
        buf[2] == 0xFF && buf[5] == ERROR_BUSY
    }
}

/// Build a ping request (function 0x01 of feature 0x00 = IRoot). The echo byte is
/// returned by the device, which shows that it is alive.
pub fn ping(device_index: u8, echo: u8) -> (msg: ShortMsg)
    ensures
        msg == ping_msg(device_index, echo),
{
    ShortMsg::new(device_index, 0x00, 0x01, [0x00, 0x00, echo])
}

/// Function 0x01 of feature 0x00, with the echo byte as last param.
pub open spec fn ping_msg(device_index: u8, echo: u8) -> ShortMsg {
    ShortMsg { device_index, feature_index: 0, function_id: 1, params: [0, 0, echo] }
}

/// A request of one byte to a function of a feature.
pub open spec fn request_msg(
    device_index: u8,
    feature_index: u8,
    function_id: u8,
    param: u8,
) -> ShortMsg {
    ShortMsg { device_index, feature_index, function_id, params: [param, 0, 0] }
}

/// Function 0x00 of feature 0x00, with the feature id big-endian.
pub open spec fn feature_msg(device_index: u8, feature_id: u16) -> ShortMsg {
    ShortMsg {
        device_index,
        feature_index: 0,
        function_id: 0,
        params: [(feature_id / 256) as u8, (feature_id % 256) as u8, 0],
    }
}

/// Ask IRoot (feature 0x00) for the feature-table index of a given feature id.
pub fn get_feature(device_index: u8, feature_id: u16) -> (msg: ShortMsg)
    ensures
        msg == feature_msg(device_index, feature_id),
{
    assert((feature_id >> 8) as u8 == (feature_id / 256) as u8) by (bit_vector);
    assert(feature_id as u8 == (feature_id % 256) as u8) by (bit_vector);
    ShortMsg::new(device_index, 0x00, 0x00, [(feature_id >> 8) as u8, feature_id as u8, 0x00])
}

/// Ask IFeatureSet for its count (function 0x00).
pub fn get_feature_count(device_index: u8, feature_set_idx: u8) -> (msg: ShortMsg)
    ensures
        msg == request_msg(device_index, feature_set_idx, 0, 0),
{
    ShortMsg::new(device_index, feature_set_idx, 0x00, [0x00, 0x00, 0x00])
}

/// Ask IFeatureSet for the feature id at position i (function 0x01).
pub fn get_feature_id(device_index: u8, feature_set_idx: u8, i: u8) -> (msg: ShortMsg)
    ensures
        msg == request_msg(device_index, feature_set_idx, 1, i),
{
    ShortMsg::new(device_index, feature_set_idx, 0x01, [i, 0x00, 0x00])
}

/// Request battery status: feature 0x1000, function 0x00.
pub fn get_battery_status(device_index: u8, feature_idx: u8) -> (msg: ShortMsg)
    ensures
        msg == request_msg(device_index, feature_idx, 0, 0),
{
    ShortMsg::new(device_index, feature_idx, 0x00, [0x00, 0x00, 0x00])
}

/// Request battery level: feature 0x1004 uses function 0x01 ("getStatus").
pub fn get_unified_battery_status(device_index: u8, feature_idx: u8) -> (msg: ShortMsg)
    ensures
        msg == request_msg(device_index, feature_idx, 1, 0),
{
    ShortMsg::new(device_index, feature_idx, 0x01, [0x00, 0x00, 0x00])
}

/// Request battery voltage: feature 0x1001, function 0x00.
pub fn get_battery_voltage(device_index: u8, feature_idx: u8) -> (msg: ShortMsg)
    ensures
        msg == request_msg(device_index, feature_idx, 0, 0),
{
    ShortMsg::new(device_index, feature_idx, 0x00, [0x00, 0x00, 0x00])
}

/// Discharge curve in millivolts: a voltage above entry `i` is at least
/// `100 - i` percent.
pub const VOLTAGE_LUT: [u16; 100] = [
    4186, 4156, 4143, 4133, 4122, 4113, 4103, 4094, 4086, 4075, 4067, 4059, 4051, 4043, 4035, 4027,
    4019, 4011, 4003, 3997, 3989, 3983, 3976, 3969, 3961, 3955, 3949, 3942, 3935, 3929, 3922, 3916,
    3909, 3902, 3896, 3890, 3883, 3877, 3870, 3865, 3859, 3853, 3848, 3842, 3837, 3833, 3828, 3824,
    3819, 3815, 3811, 3808, 3804, 3800, 3797, 3793, 3790, 3787, 3784, 3781, 3778, 3775, 3772, 3770,
    3767, 3764, 3762, 3759, 3757, 3754, 3751, 3748, 3744, 3741, 3737, 3734, 3730, 3726, 3724, 3720,
    3717, 3714, 3710, 3706, 3702, 3697, 3693, 3688, 3683, 3677, 3671, 3666, 3662, 3658, 3654, 3646,
    3633, 3612, 3579, 3537,
];

/// `percent` is what the discharge curve gives for `mv`: the entry `100 - percent`
/// is the first that `mv` exceeds; 0 where it exceeds none.
pub open spec fn charge_at(mv: u16, percent: u8) -> bool {
    &&& percent <= 100
    &&& forall|i: int| 0 <= i < 100 - percent ==> mv <= #[trigger] VOLTAGE_LUT[i]
    &&& percent > 0 ==> mv > VOLTAGE_LUT[100 - percent]
}

/// The charge that the discharge curve gives for `mv`, in percent.
pub open spec fn percent_of(mv: u16) -> u8 {
    choose|percent: u8| charge_at(mv, percent)
}

/// The charge in percent of a battery at `mv` millivolts.
pub fn mv_to_percent(mv: u16) -> (percent: u8)
    ensures
        charge_at(mv, percent),
        percent == percent_of(mv),
{
    let mut i: u8 = 0;
    while i < 100
        invariant
            i <= 100,
            forall|j: int| 0 <= j < i ==> mv <= #[trigger] VOLTAGE_LUT[j],
        decreases 100 - i,
    {
        if mv > VOLTAGE_LUT[i as usize] {
            proof {
                assert(charge_at(mv, (100 - i) as u8));
                law_charge_monotone(mv, mv, (100 - i) as u8, percent_of(mv));
            }
            return 100 - i;
        }
        i += 1;
    }
    proof {
        assert(charge_at(mv, 0));
        law_charge_monotone(mv, mv, 0, percent_of(mv));
    }
    0
}

/// Decode charging status from the status byte of feature 0x1000 or 0x1004.
pub fn is_charging_from_status(status: u8) -> (charging: bool)
    ensures
        charging == charging_status(status),
{
    // 0 = discharging, 1 = recharging, 2 = charge in final stage, 3 = full, 4 = slow charge
    matches!(status, 1 | 2 | 4)
}

/// Recharging, in the final stage of a charge, or charging slowly.
pub open spec fn charging_status(status: u8) -> bool {
    status == 1 || status == 2 || status == 4
}

/// External power is present (bit 7) and the charge status (bits 0 to 2) is not 2.
pub open spec fn charging_flags(flags: u8) -> bool {
    flags >= 0x80 && flags % 8 != 2
}

/// Decode charging status from the flags byte of feature 0x1001.
pub fn is_charging_from_flags(flags: u8) -> (charging: bool)
    ensures
        charging == charging_flags(flags),
{
    // bit 7: external power present; bits 0-2: charge status
    assert((flags & 0x80) != 0 <==> flags >= 0x80) by (bit_vector);
    assert(flags & 0x07 == flags % 8) by (bit_vector);
    (flags & 0x80) != 0 && (flags & 0x07) != 2
}

/// Decoding a report gives back the message that was encoded into it, short or
/// long, as long as the function id fits its four bits.
pub proof fn law_decode_inverts_encode(msg: ShortMsg)
    requires
        msg.function_id < 16,
    ensures
        ShortMsg::of_report(header_at(msg.short_frame(), 0)) == msg,
        ShortMsg::of_report(header_at(msg.long_frame(), 0)) == msg,
{
    let short = ShortMsg::of_report(header_at(msg.short_frame(), 0));
    let long = ShortMsg::of_report(header_at(msg.long_frame(), 0));
    assert(short.params =~= msg.params);
    assert(long.params =~= msg.params);
}

/// A long report carries the same bytes as the short report behind its report id,
/// and zeros after them.
pub proof fn law_long_frame_extends_short_frame(msg: ShortMsg)
    ensures
        msg.short_frame().len() == 7,
        msg.long_frame().len() == 20,
        msg.long_frame().subrange(1, 7) == msg.short_frame().subrange(1, 7),
        forall|i: int| 7 <= i < 20 ==> msg.long_frame()[i] == 0,
{
    assert(msg.long_frame().subrange(1, 7) =~= msg.short_frame().subrange(1, 7));
}

/// An encoded request carries our software id, so that a device that echoes the
/// header answers with a report that classifies as a reply: its feature index is
/// below the range of the receiver's sub-ids.
pub proof fn law_request_header_is_reply(msg: ShortMsg)
    requires
        msg.feature_index < 0x40,
    ensures
        header_of(msg.long_frame(), 20) == Some(header_at(msg.long_frame(), 0)),
        software_id(header_at(msg.long_frame(), 0)) == SW_ID,
        class_of(header_at(msg.long_frame(), 0)) == ReportClass::Reply,
        header_of(msg.short_frame(), 7) == Some(header_at(msg.short_frame(), 0)),
        software_id(header_at(msg.short_frame(), 0)) == SW_ID,
        class_of(header_at(msg.short_frame(), 0)) == ReportClass::Reply,
{
}

/// A byte in front of a report does not change the header that is read from it.
pub proof fn law_prepended_byte_is_skipped(first: u8, report: Seq<u8>)
    requires
        report.len() >= 7,
        is_report_id(report[0]),
        !is_report_id(first),
    ensures
        header_of(seq![first] + report, (report.len() + 1) as int) == header_of(
            report,
            report.len() as int,
        ),
{
    let longer = seq![first] + report;
    assert(forall|i: int| 0 <= i < report.len() ==> longer[i + 1] == #[trigger] report[i]);
    assert(header_at(longer, 1) =~= header_at(report, 0));
}

/// A report is an error exactly where it classifies as one.
pub proof fn law_error_is_error_class(report: [u8; 7])
    ensures
        error_report(report) <==> class_of(report) == ReportClass::Error,
{
}

/// The discharge curve falls strictly.
pub proof fn law_voltage_table_decreasing(i: int, j: int)
    requires
        0 <= i < j < 100,
    ensures
        VOLTAGE_LUT[i] > VOLTAGE_LUT[j],
{
}

/// A higher voltage never reads as a lower charge; in particular a voltage has one
/// charge.
pub proof fn law_charge_monotone(low: u16, high: u16, p: u8, q: u8)
    requires
        low <= high,
        charge_at(low, p),
        charge_at(high, q),
    ensures
        p <= q,
        low == high ==> p == q,
{
    if p > 0 {
        assert(low > VOLTAGE_LUT[100 - p]);
    }
    if q > 0 {
        assert(high > VOLTAGE_LUT[100 - q]);
    }
}

/// One millivolt above entry `i` of the discharge curve is `100 - i` percent.
pub proof fn law_charge_of_table_entry(i: int)
    requires
        0 <= i < 100,
    ensures
        charge_at((VOLTAGE_LUT[i] + 1) as u16, (100 - i) as u8),
{
    assert forall|j: int| 0 <= j < i implies VOLTAGE_LUT[i] + 1 <= #[trigger] VOLTAGE_LUT[j] by {
        law_voltage_table_decreasing(j, i);
    }
    if i > 0 {
        law_voltage_table_decreasing(0, i);
    }
}

/// The discharge curve gives every voltage a charge.
pub proof fn lemma_percent_exists(mv: u16)
    ensures
        charge_at(mv, percent_of(mv)),
{
    lemma_percent_search(mv, 0);
}

proof fn lemma_percent_search(mv: u16, i: int)
    requires
        0 <= i <= 100,
        forall|j: int| 0 <= j < i ==> mv <= #[trigger] VOLTAGE_LUT[j],
    ensures
        charge_at(mv, percent_of(mv)),
    decreases 100 - i,
{
    if i == 100 {
        assert(charge_at(mv, 0));
    } else if mv > VOLTAGE_LUT[i] {
        assert(charge_at(mv, (100 - i) as u8));
    } else {
        lemma_percent_search(mv, i + 1);
    }
}

/// Where the header of a report stands: a report of seven bytes or more starts with it,
/// but for a byte in front that is neither 0x10 nor 0x11, which is skipped where eight
/// bytes are there. Fewer than seven bytes have no header.
pub proof fn law_header_bytes(buf: Seq<u8>, n: int, i: int)
    requires
        0 <= i < 7,
    ensures
        n < 7 ==> header_of(buf, n) is None,
        n >= 7 ==> header_of(buf, n) is Some,
        n == 7 ==> header_of(buf, n)->0[i] == buf[i],
        n >= 8 && (buf[0] == 0x10 || buf[0] == 0x11) ==> header_of(buf, n)->0[i] == buf[i],
        n >= 8 && buf[0] != 0x10 && buf[0] != 0x11 ==> header_of(buf, n)->0[i] == buf[i + 1],
{
}

/// What the bytes of a report make it: byte 2 tells errors (0x8F, 0xFF), register
/// replies (0x80 and up), connections (0x41) and other notifications (0x40 to 0x7F);
/// below that the low nibble of byte 3 does: 0x0A is a reply of ours, 0 an event, and
/// anything else is not for us. No other byte matters but the device index, byte 1.
pub proof fn law_class_by_bytes(report: [u8; 7])
    ensures
        report[2] == 0x8F || report[2] == 0xFF <==> class_of(report) == ReportClass::Error,
        report[2] >= 0x80 && report[2] != 0x8F && report[2] != 0xFF ==> class_of(report) == (
        ReportClass::RegisterReply { sub_id: report[2] }),
        report[2] == 0x41 ==> class_of(report) == (ReportClass::Connection {
            device_index: report[1],
        }),
        0x40 <= report[2] < 0x80 && report[2] != 0x41 ==> class_of(report) == (
        ReportClass::Notification { sub_id: report[2] }),
        report[2] < 0x40 && report[3] & 0x0F == 0x0A ==> class_of(report) == ReportClass::Reply,
        report[2] < 0x40 && report[3] & 0x0F == 0 ==> class_of(report) == (
        ReportClass::FeatureEvent { device_index: report[1], feature_index: report[2] }),
        report[2] < 0x40 && report[3] & 0x0F != 0 && report[3] & 0x0F != 0x0A ==> class_of(report)
            == (ReportClass::Notification { sub_id: report[3] & 0x0F }),
{
    let b = report[3];
    assert(b & 0x0F == b % 16) by (bit_vector);
}

/// The low nibble of byte 3, the error bytes and the busy code.
pub proof fn law_report_bits(report: [u8; 7])
    ensures
        software_id(report) == report[3] & 0x0F,
        error_report(report) <==> report[2] == 0x8F || report[2] == 0xFF,
        busy_report(report) <==> report[2] == 0xFF && report[5] == 0x08,
{
    let b = report[3];
    assert(b & 0x0F == b % 16) by (bit_vector);
}

/// The bytes of a message on the wire: report id, device, feature, function and software
/// id in one byte, and three params; a long report goes on with zeros.
pub proof fn law_frame_bytes(msg: ShortMsg, i: int)
    ensures
        msg.short_frame().len() == 7,
        msg.long_frame().len() == 20,
        msg.short_frame()[0] == 0x10,
        msg.long_frame()[0] == 0x11,
        msg.short_frame()[1] == msg.device_index,
        msg.short_frame()[2] == msg.feature_index,
        msg.short_frame()[3] & 0x0F == 0x0A,
        msg.short_frame()[3] >> 4 == msg.function_id & 0x0F,
        0 <= i < 3 ==> msg.short_frame()[4 + i] == msg.params[i],
        1 <= i < 7 ==> msg.long_frame()[i] == msg.short_frame()[i],
        7 <= i < 20 ==> msg.long_frame()[i] == 0,
{
    let f = msg.function_id;
    let b = msg.short_frame()[3];
    assert(f & 0x0F == f % 16) by (bit_vector);
    assert(b & 0x0F == b % 16) by (bit_vector);
    assert(b >> 4 == b / 16) by (bit_vector);
}

/// A message that is decoded holds the bytes of the report: device, feature, the high
/// nibble of byte 3 and the params.
pub proof fn law_decoded_bytes(report: [u8; 7], i: int)
    requires
        0 <= i < 3,
    ensures
        ShortMsg::of_report(report).device_index == report[1],
        ShortMsg::of_report(report).feature_index == report[2],
        ShortMsg::of_report(report).function_id == report[3] >> 4,
        ShortMsg::of_report(report).params[i] == report[4 + i],
{
    let b = report[3];
    assert(b >> 4 == b / 16) by (bit_vector);
}

/// What the requests carry: a ping its echo as last param of function 1 of IRoot, a
/// request for a feature the id, high byte first, as params of function 0 of IRoot, and
/// any other request its one param first.
pub proof fn law_request_params(device: u8, feature: u8, function: u8, param: u8, id: u16)
    ensures
        ping_msg(device, param).device_index == device,
        ping_msg(device, param).feature_index == 0,
        ping_msg(device, param).function_id == 1,
        ping_msg(device, param).params@ == seq![0u8, 0u8, param],
        feature_msg(device, id).device_index == device,
        feature_msg(device, id).feature_index == 0,
        feature_msg(device, id).function_id == 0,
        feature_msg(device, id).params[0] * 256 + feature_msg(device, id).params[1] == id,
        feature_msg(device, id).params[2] == 0,
        request_msg(device, feature, function, param).device_index == device,
        request_msg(device, feature, function, param).feature_index == feature,
        request_msg(device, feature, function, param).function_id == function,
        request_msg(device, feature, function, param).params@ == seq![param, 0u8, 0u8],
{
    assert(ping_msg(device, param).params@ =~= seq![0u8, 0u8, param]);
    assert(request_msg(device, feature, function, param).params@ =~= seq![param, 0u8, 0u8]);
}

/// The lowest voltage at which a charge of 1, 2, ... 100 percent is shown, in millivolts.
pub open spec fn lowest_millivolts() -> Seq<int> {
    seq![
        3538int, 3580, 3613, 3634, 3647, 3655, 3659, 3663, 3667, 3672,
        3678, 3684, 3689, 3694, 3698, 3703, 3707, 3711, 3715, 3718,
        3721, 3725, 3727, 3731, 3735, 3738, 3742, 3745, 3749, 3752,
        3755, 3758, 3760, 3763, 3765, 3768, 3771, 3773, 3776, 3779,
        3782, 3785, 3788, 3791, 3794, 3798, 3801, 3805, 3809, 3812,
        3816, 3820, 3825, 3829, 3834, 3838, 3843, 3849, 3854, 3860,
        3866, 3871, 3878, 3884, 3891, 3897, 3903, 3910, 3917, 3923,
        3930, 3936, 3943, 3950, 3956, 3962, 3970, 3977, 3984, 3990,
        3998, 4004, 4012, 4020, 4028, 4036, 4044, 4052, 4060, 4068,
        4076, 4087, 4095, 4104, 4114, 4123, 4134, 4144, 4157, 4187,
    ]
}

/// The charge that is shown for a voltage is at least `percent` exactly from the lowest
/// voltage for that percentage on, and never above 100.
pub proof fn law_discharge_curve(mv: u16, percent: int)
    requires
        1 <= percent <= 100,
    ensures
        percent_of(mv) >= percent <==> mv >= lowest_millivolts()[percent - 1],
        percent_of(mv) <= 100,
{
    lemma_percent_exists(mv);
    let shown = percent_of(mv);
    assert(VOLTAGE_LUT[100 - percent] + 1 == lowest_millivolts()[percent - 1]);
    if shown > 0 && shown < percent {
        law_voltage_table_decreasing(100 - percent, 100 - shown);
    }
    if shown > percent {
        law_voltage_table_decreasing(100 - shown, 100 - percent);
    }
}

/// A status byte tells of charging where it is 1, 2 or 4; a flags byte where bit 7 is set
/// and the three lowest bits are not 2.
pub proof fn law_charging_bits(status: u8, flags: u8)
    ensures
        charging_status(status) <==> status == 1 || status == 2 || status == 4,
        charging_flags(flags) <==> flags & 0x80 != 0 && flags & 0x07 != 2,
{
    assert((flags & 0x80) != 0 <==> flags >= 0x80) by (bit_vector);
    assert(flags & 0x07 == flags % 8) by (bit_vector);
}

/// The budgets of requests: five attempts of half a second for data, two of 300 ms for a
/// ping.
pub proof fn law_budgets()
    ensures
        READ_TIMEOUT_MS == 500,
        MAX_RETRIES == 5,
        PING_TIMEOUT_MS == 300,
        PING_RETRIES == 2,
        SW_ID == 0x0A,
{
}

} // verus!
