//! HID++ 1.0 receiver registers: enabling notifications, asking the receiver to
//! announce its connected devices, and reading the device-connection notification
//! (sub-id 0x41).
//!
//! These frames address the receiver itself (device index 0xFF). They differ from
//! the HID++ 2.0 feature frame: byte 2 is a sub-id (0x80 set, 0x81 get) and byte 3
//! the register address, with no software id. They travel as short (0x10) reports
//! on the receiver's short vendor collection (usage 0x0001).

use crate::hid::exchange::{Exchange, ExchangePhase, Expect, Verdict};
use crate::hid::protocol::{class_of, header_at, header_of, ReportClass, SHORT_REPORT_ID};
use vstd::prelude::*;

verus! {

/// The receiver addresses itself at device index 0xFF.
pub const RECEIVER_INDEX: u8 = 0xFF;

/// HID++ 1.0 register sub-ids.
pub const SUB_SET_REGISTER: u8 = 0x80;

pub const SUB_GET_REGISTER: u8 = 0x81;

/// Registers in use.
pub const REG_NOTIFICATIONS: u8 = 0x00;

pub const REG_CONNECTION_STATE: u8 = 0x02;

/// Notification-flag bits (a 24-bit field written to register 0x00, big-endian):
/// those for "a wireless device comes or goes" and "its battery changes".
pub const NOTIF_WIRELESS: u32 = 0x000100;

pub const NOTIF_SOFTWARE_PRESENT: u32 = 0x000800;

pub const NOTIF_BATTERY_STATUS: u32 = 0x100000;

/// Value written to the connection-state register (0x02) to make the receiver emit
/// a connection notification for every currently paired device.
pub const ANNOUNCE_ALL: u8 = 0x02;

/// How long to wait for a register acknowledgement. Setup is best-effort: a receiver
/// that ignores it is served by discovery pings and the periodic safety re-read.
pub const REGISTER_ACK_TIMEOUT_MS: i32 = 600;

pub const REGISTER_ACK_TRIES: usize = 3;

/// Milliseconds between two attempts of a register request.
pub const REGISTER_RETRY_DELAY_MS: u64 = 50;

/// A HID++ 1.0 device-connection notification (sub-id 0x41).
#[derive(Clone, Copy, Debug, PartialEq, Eq, Structural)]
pub struct ConnectionNotification {
    /// Receiver slot (1..=6) the notification refers to.
    pub device_index: u8,
    /// Whether the wireless link is up (device present) or down (device gone).
    pub link_established: bool,
    /// Wireless product id of the paired device. The byte order of this field
    /// depends on the receiver family (Bolt differs).
    pub wpid: u16,
}

/// The sub-id that writes (`set`) or reads a register.
pub open spec fn register_sub_id(set: bool) -> u8 {
    if set {
        SUB_SET_REGISTER
    } else {
        SUB_GET_REGISTER
    }
}

/// The short report of a register request.
pub open spec fn register_frame_bytes(set: bool, register: u8, params: [u8; 3]) -> Seq<u8> {
    seq![
        SHORT_REPORT_ID,
        RECEIVER_INDEX,
        register_sub_id(set),
        register,
        params[0],
        params[1],
        params[2],
    ]
}

/// `exchange` is the untouched request to write (`set`) or read a register.
pub open spec fn is_register_request(
    exchange: Exchange,
    set: bool,
    register: u8,
    params: [u8; 3],
) -> bool {
    &&& exchange.request@ == register_frame_bytes(set, register, params)
    &&& exchange.expect == (Expect::Register { register, sub_id: register_sub_id(set) })
    &&& exchange.timeout_ms == REGISTER_ACK_TIMEOUT_MS
    &&& exchange.pause_ms == REGISTER_RETRY_DELAY_MS
    &&& exchange.retries == REGISTER_ACK_TRIES
    &&& exchange.phase == Exchange::attempt_phase(exchange.expect, REGISTER_ACK_TRIES, 0)
    &&& exchange.wf()
}

/// Build a HID++ 1.0 register request as a 7-byte short report. `set` chooses
/// sub-id 0x80 (write) or 0x81 (read).
pub fn register_frame(set: bool, register: u8, params: [u8; 3]) -> (frame: [u8; 7])
    ensures
        frame@ == register_frame_bytes(set, register, params),
{
    let sub_id: u8 = if set {
        SUB_SET_REGISTER
    } else {
        SUB_GET_REGISTER
    };
    [SHORT_REPORT_ID, RECEIVER_INDEX, sub_id, register, params[0], params[1], params[2]]
}

/// A HID++ 1.0 register request that waits for its acknowledgement and discards any
/// notifications that come in between.
pub fn register_request(set: bool, register: u8, params: [u8; 3]) -> (exchange: Exchange)
    ensures
        is_register_request(exchange, set, register, params),
{
    let sub_id: u8 = if set {
        SUB_SET_REGISTER
    } else {
        SUB_GET_REGISTER
    };
    let frame: [u8; 7] = register_frame(set, register, params);
    let mut request: Vec<u8> = Vec::new();
    request.extend_from_slice(frame.as_slice());
    assert(request@ =~= frame@);
    Exchange::new(
        request,
        Expect::Register { register, sub_id },
        REGISTER_ACK_TIMEOUT_MS,
        REGISTER_RETRY_DELAY_MS,
        REGISTER_ACK_TRIES,
    )
}

/// The notification flags as they are written to the register.
pub fn notification_flags() -> (params: [u8; 3])
    ensures
        params@ == seq![0x10u8, 0x09u8, 0x00u8],
{
    let flags: u32 = NOTIF_WIRELESS | NOTIF_SOFTWARE_PRESENT | NOTIF_BATTERY_STATUS;
    assert(0x000100u32 | 0x000800u32 | 0x100000u32 == 0x100900u32) by (bit_vector);
    assert((0x100900u32 >> 16) as u8 == 0x10u8) by (bit_vector);
    assert((0x100900u32 >> 8) as u8 == 0x09u8) by (bit_vector);
    assert(0x100900u32 as u8 == 0x00u8) by (bit_vector);
    [(flags >> 16) as u8, (flags >> 8) as u8, flags as u8]
}

/// Tell the receiver to push wireless connect, disconnect and battery
/// notifications, and to treat us as the managing software. Best-effort.
pub fn enable_notifications() -> (exchange: Exchange)
    ensures
        is_register_request(exchange, true, REG_NOTIFICATIONS, [0x10, 0x09, 0x00]),
{
    let params: [u8; 3] = notification_flags();
    assert(params =~= [0x10, 0x09, 0x00]);
    register_request(true, REG_NOTIFICATIONS, params)
}

/// The frame that asks the receiver to announce every currently connected device,
/// which makes it emit one connection notification (sub-id 0x41) per device (and an
/// error notification per empty slot). It is written without waiting for its
/// acknowledgement: to wait would consume the connection notification that races
/// ahead of it. Best-effort.
pub fn poke_announce() -> (frame: [u8; 7])
    ensures
        frame@ == register_frame_bytes(true, REG_CONNECTION_STATE, [ANNOUNCE_ALL, 0x00, 0x00]),
{
    register_frame(true, REG_CONNECTION_STATE, [ANNOUNCE_ALL, 0x00, 0x00])
}

/// The request for the number of connected devices, register 0x02 (get).
/// Best-effort; not all receivers answer.
pub fn request_connected_count() -> (exchange: Exchange)
    ensures
        is_register_request(exchange, false, REG_CONNECTION_STATE, [0x00, 0x00, 0x00]),
{
    register_request(false, REG_CONNECTION_STATE, [0x00, 0x00, 0x00])
}

/// The number of connected devices in an acknowledgement of register 0x02: payload
/// byte 1 (`10 FF 81 02 00 01 00` is one device).
pub fn connected_count(reply: &[u8; 7]) -> (count: u8)
    ensures
        count == reply[5],
{
    reply[5]
}

/// The connection notification in a report: `[1]` slot, `[2]` = 0x41, `[4]`
/// link-status flags (bit 6 set means link down), `[5..7]` wireless product id, low
/// byte first.
pub open spec fn connection_of(report: [u8; 7]) -> Option<ConnectionNotification> {
    if report[2] == 0x41 {
        Some(
            ConnectionNotification {
                device_index: report[1],
                link_established: (report[4] / 64) % 2 == 0,
                wpid: (report[6] * 256 + report[5]) as u16,
            },
        )
    } else {
        None
    }
}

/// Read a normalized 7-byte connection notification (sub-id 0x41). Returns `None`
/// if this is not a 0x41 report.
pub fn parse_connection(report: &[u8; 7]) -> (notification: Option<ConnectionNotification>)
    ensures
        notification == connection_of(*report),
{
    if report[2] != 0x41 {
        return None;
    }
    let flags: u8 = report[4];
    let high: u8 = report[6];
    let low: u8 = report[5];
    assert((flags & 0x40) == 0 <==> (flags / 64) % 2 == 0) by (bit_vector);
    assert(((high as u16) << 8) | low as u16 == high * 256 + low) by (bit_vector);
    Some(
        ConnectionNotification {
            device_index: report[1],
            // Bit 6 (0x40) set means the link is not established (device left).
            link_established: (flags & 0x40) == 0,
            // High byte last: `... 99 40` is device 0x4099.
            wpid: ((high as u16) << 8) | low as u16,
        },
    )
}

/// A report carries a connection notification exactly where it classifies as one,
/// and both name the same slot.
pub proof fn law_connection_class(report: [u8; 7])
    ensures
        connection_of(report) is Some <==> class_of(report) is Connection,
        connection_of(report) matches Some(n) ==> class_of(report) == (ReportClass::Connection {
            device_index: n.device_index,
        }),
{
}

/// An acknowledgement is not ours where its register or its sub-id is another: the
/// request goes on waiting for its own.
pub proof fn law_other_acknowledgement_is_passed_over(
    exchange: Exchange,
    set: bool,
    register: u8,
    params: [u8; 3],
    report: Seq<u8>,
    header: [u8; 7],
    got: u8,
)
    requires
        is_register_request(exchange, set, register, params),
        header_of(report, report.len() as int) == Some(header),
        class_of(header) == (ReportClass::RegisterReply { sub_id: got }),
        header[3] != register || got != register_sub_id(set),
    ensures
        exchange.expect.verdict_on(report) == Verdict::Unrelated,
        exchange.after_write(true).after_report(report) == exchange.after_write(true),
{
}

/// A receiver that acknowledges a register request by echoing its header answers
/// the request: the acknowledgement has the sub-id that the exchange waits for.
pub proof fn law_register_echo_answers(exchange: Exchange, set: bool, register: u8, params: [u8; 3])
    requires
        is_register_request(exchange, set, register, params),
    ensures
        exchange.expect.verdict_on(exchange.request@) == Verdict::Answer(
            header_at(exchange.request@, 0),
        ),
{
}

/// What the bits of a connection notification tell: the slot is byte 1, the link is up
/// exactly where bit 6 of byte 4 is clear, whatever its other bits are, and the wireless
/// product id is bytes 5 and 6, low byte first. A report is one exactly where byte 2 is
/// 0x41.
pub proof fn law_connection_bits(report: [u8; 7])
    ensures
        connection_of(report) is Some <==> report[2] == 0x41,
        report[2] == 0x41 ==> connection_of(report)->0.device_index == report[1],
        report[2] == 0x41 ==> (connection_of(report)->0.link_established <==> report[4] & 0x40
            == 0),
        report[2] == 0x41 ==> connection_of(report)->0.wpid % 256 == report[5],
        report[2] == 0x41 ==> connection_of(report)->0.wpid / 256 == report[6],
{
    let flags = report[4];
    assert((flags & 0x40) == 0 <==> (flags / 64) % 2 == 0) by (bit_vector);
}

/// Two notifications that agree in bit 6 of the flags agree on the link, and two that
/// agree in the other bytes agree on the device.
pub proof fn law_connection_ignores_other_bits(report: [u8; 7], other: [u8; 7])
    requires
        report[2] == 0x41,
        other[2] == 0x41,
    ensures
        report[4] & 0x40 == other[4] & 0x40 ==> connection_of(report)->0.link_established
            == connection_of(other)->0.link_established,
        report[1] == other[1] ==> connection_of(report)->0.device_index == connection_of(
            other,
        )->0.device_index,
        report[5] == other[5] && report[6] == other[6] ==> connection_of(report)->0.wpid
            == connection_of(other)->0.wpid,
{
    law_connection_bits(report);
    law_connection_bits(other);
}

/// The bytes of a register request: a short report to device 0xFF, with sub-id 0x80 to
/// write and 0x81 to read, the register, and the three params.
pub proof fn law_register_bytes(set: bool, register: u8, params: [u8; 3], i: int)
    requires
        0 <= i < 3,
    ensures
        register_frame_bytes(set, register, params).len() == 7,
        register_frame_bytes(set, register, params)[0] == 0x10,
        register_frame_bytes(set, register, params)[1] == 0xFF,
        register_frame_bytes(set, register, params)[2] == (if set {
            0x80u8
        } else {
            0x81u8
        }),
        register_frame_bytes(set, register, params)[3] == register,
        register_frame_bytes(set, register, params)[4 + i] == params[i],
{
}

/// How a register request goes out: its bytes, up to three attempts of 600 ms with 50 ms
/// between them, and the acknowledgement of that register alone as its answer.
pub proof fn law_register_budget(exchange: Exchange, set: bool, register: u8, params: [u8; 3])
    requires
        is_register_request(exchange, set, register, params),
    ensures
        exchange.request@ == register_frame_bytes(set, register, params),
        exchange.timeout_ms == 600,
        exchange.pause_ms == 50,
        exchange.retries == 3,
        exchange.phase == (ExchangePhase::Write { attempt: 0 }),
        exchange.expect == (Expect::Register {
            register,
            sub_id: if set {
                0x80u8
            } else {
                0x81u8
            },
        }),
{
}

/// The registers: notifications are 0x00, the connection state is 0x02, and 2 written to
/// it makes the receiver announce its devices.
pub proof fn law_registers(params: [u8; 3])
    ensures
        register_frame_bytes(true, REG_NOTIFICATIONS, params)[3] == 0x00,
        register_frame_bytes(true, REG_CONNECTION_STATE, params)[3] == 0x02,
        register_frame_bytes(true, REG_CONNECTION_STATE, [ANNOUNCE_ALL, 0, 0])[4] == 0x02,
{
}

} // verus!
