//! Hardware diagnostics: what to try on the receivers and what to print of it.
//!
//! Covers the suspected failure points when no devices are found:
//!   1. which vendor 0x046D HID interfaces the system lists
//!   2. which of them make up a receiver
//!   3. whether each 0xFF00 interface answers a HID++ ping on indices 1..=6
//!   4. whether the receiver pushes notifications

use crate::hid::client::{header_stands_at, law_header_at, ping_echo, ping_slot};
use crate::hid::error::{error_text, HidError};
use crate::hid::name::{from_utf8_lossy, text_of};
use crate::hid::protocol::{
    class_of, classify, header_of, law_class_by_bytes, law_header_bytes, normalize_report, ping_msg,
    ReportClass, LONG_REPORT_ID, READ_TIMEOUT_MS, SHORT_REPORT_ID,
};
use crate::hid::receiver::{
    connection_of, law_connection_bits, parse_connection, ConnectionNotification,
};
use crate::hid::scanner::{
    copied, interface_views, is_hidpp, receiver_views, receivers, scan_receivers, text_view,
    HidInterface, InterfaceView, ReceiverPath, ReceiverView, HIDPP_LONG_USAGE, HIDPP_USAGE_PAGE,
    LOGITECH_VID,
};
use crate::hid::slots::MAX_SLOT;
use crate::text::{
    decimal, hex_digits, hex_dump, law_decimal_value, law_hex_digits_value, lines_of, number_of,
    push_aligned, push_decimal, push_hex, push_hex_dump, right_aligned, signed_decimal, UPPER,
};
use vstd::prelude::*;

verus! {

/// How long a long ping waits for its reply.
pub const LONG_PING_TIMEOUT_MS: i32 = 1000;

/// How often a receiver is looked at while notifications are listened for: with
/// [`LISTEN_TIMEOUT_MS`] for each look, about 10 s.
pub const LISTEN_LOOKS: usize = 40;

/// How long one look waits.
pub const LISTEN_TIMEOUT_MS: i32 = 250;

/// The entry for a listed interface.
pub open spec fn interface_text(info: InterfaceView) -> Seq<char> {
    "PID "@ + hex_digits(info.product_id as nat, 4, UPPER) + "  usage_page=0x"@ + hex_digits(
        info.usage_page as nat,
        4,
        UPPER,
    ) + " usage=0x"@ + hex_digits(info.usage as nat, 4, UPPER) + " iface="@ + right_aligned(
        signed_decimal(info.interface_number as int),
        3,
    ) + "  \""@ + match info.product {
        Some(product) => product,
        None => "<none>"@,
    } + "\"\n           path="@ + text_of(info.path)
}

/// The entry for a receiver.
pub open spec fn receiver_text(receiver: ReceiverView) -> Seq<char> {
    "PID "@ + hex_digits(receiver.pid as nat, 4, UPPER) + "\n   long  (0x0002) = "@ + text_of(
        receiver.long_path,
    ) + "\n   short (0x0001) = "@ + match receiver.short_path {
        Some(path) => text_of(path),
        None => "<none>"@,
    }
}

/// The entries for the listed interfaces of the vendor.
pub open spec fn interface_texts(list: Seq<InterfaceView>) -> Seq<Seq<char>>
    decreases list.len(),
{
    if list.len() == 0 {
        Seq::empty()
    } else {
        let before = interface_texts(list.drop_last());
        if list.last().vendor_id == LOGITECH_VID {
            before.push(interface_text(list.last()))
        } else {
            before
        }
    }
}

/// What is printed of the interfaces before any of them is opened.
pub open spec fn overview_lines(list: Seq<InterfaceView>) -> Seq<Seq<char>> {
    seq!["=== All VID 0x046D HID interfaces hidapi sees ==="@] + interface_texts(list) + seq![
        "\n=== scan_receivers() result ==="@,
    ] + if receivers(list).len() == 0 {
        seq!["(none matched VID 0x046D + usage_page 0xFF00)"@]
    } else {
        receivers(list).map_values(|receiver: ReceiverView| receiver_text(receiver))
    }
}

fn describe_interface(info: &HidInterface) -> (text: String)
    ensures
        text@ == interface_text(info@),
{
    let mut text: String = "PID ".to_owned();
    push_hex(&mut text, info.product_id as u64, 4, UPPER);
    text.append("  usage_page=0x");
    push_hex(&mut text, info.usage_page as u64, 4, UPPER);
    text.append(" usage=0x");
    push_hex(&mut text, info.usage as u64, 4, UPPER);
    text.append(" iface=");
    push_aligned(&mut text, info.interface_number, 3);
    text.append("  \"");
    match &info.product {
        Some(product) => text.append(product.as_str()),
        None => text.append("<none>"),
    }
    text.append("\"\n           path=");
    text.append(from_utf8_lossy(info.path.as_slice()).as_str());
    text
}

fn describe_receiver(receiver: &ReceiverPath) -> (text: String)
    ensures
        text@ == receiver_text(receiver@),
{
    let mut text: String = "PID ".to_owned();
    push_hex(&mut text, receiver.pid as u64, 4, UPPER);
    text.append("\n   long  (0x0002) = ");
    text.append(from_utf8_lossy(receiver.long_path.as_slice()).as_str());
    text.append("\n   short (0x0001) = ");
    match &receiver.short_path {
        Some(path) => text.append(from_utf8_lossy(path.as_slice()).as_str()),
        None => text.append("<none>"),
    }
    text
}

/// What is printed of the interfaces before any of them is opened: all of the vendor,
/// and the receivers that they make up.
pub fn overview(interfaces: &[HidInterface]) -> (lines: Vec<String>)
    ensures
        lines_of(lines@) == overview_lines(interface_views(interfaces@)),
{
    let ghost list = interface_views(interfaces@);
    let ghost title = seq!["=== All VID 0x046D HID interfaces hidapi sees ==="@];
    let mut lines: Vec<String> = Vec::new();
    lines.push("=== All VID 0x046D HID interfaces hidapi sees ===".to_owned());
    let mut i: usize = 0;
    let len: usize = interfaces.len();
    assert(lines_of(lines@) =~= title + interface_texts(list.take(0)));
    while i < len
        invariant
            i <= len,
            len == interfaces@.len(),
            list == interface_views(interfaces@),
            lines_of(lines@) == title + interface_texts(list.take(i as int)),
        decreases len - i,
    {
        let ghost before = lines_of(lines@);
        assert(list.take(i + 1).drop_last() =~= list.take(i as int));
        assert(list.take(i + 1).last() == interfaces@[i as int]@);
        if interfaces[i].vendor_id == LOGITECH_VID {
            let line: String = describe_interface(&interfaces[i]);
            let ghost text = line@;
            lines.push(line);
            assert(lines_of(lines@) =~= before.push(text));
            assert(lines_of(lines@) =~= title + interface_texts(list.take(i + 1)));
        }
        i += 1;
    }
    assert(list.take(len as int) =~= list);
    let ghost before = lines_of(lines@);
    lines.push("\n=== scan_receivers() result ===".to_owned());
    let ghost head = before + seq!["\n=== scan_receivers() result ==="@];
    assert(lines_of(lines@) =~= head);
    let found: Vec<ReceiverPath> = scan_receivers(interfaces);
    let ghost views = receiver_views(found@);
    if found.len() == 0 {
        lines.push("(none matched VID 0x046D + usage_page 0xFF00)".to_owned());
        assert(lines_of(lines@) =~= head + seq!["(none matched VID 0x046D + usage_page 0xFF00)"@]);
        return lines;
    }
    let ghost entries = views.map_values(|receiver: ReceiverView| receiver_text(receiver));
    let mut r: usize = 0;
    assert(lines_of(lines@) =~= head + entries.take(0));
    while r < found.len()
        invariant
            r <= found@.len(),
            views == receiver_views(found@),
            entries == views.map_values(|receiver: ReceiverView| receiver_text(receiver)),
            lines_of(lines@) == head + entries.take(r as int),
        decreases found@.len() - r,
    {
        let ghost before = lines_of(lines@);
        let line: String = describe_receiver(&found[r]);
        let ghost text = line@;
        lines.push(line);
        assert(views[r as int] == found@[r as int]@);
        assert(lines_of(lines@) =~= before.push(text));
        assert(entries.take(r + 1) =~= entries.take(r as int).push(text));
        assert(lines_of(lines@) =~= head + entries.take(r + 1));
        r += 1;
    }
    assert(entries.take(r as int) =~= entries);
    lines
}

/// The two kinds of ping that are tried.
#[derive(Clone, Copy, Debug, PartialEq, Eq, Structural)]
pub enum PingKind {
    /// A short report (0x10), on every HID++ interface.
    Short,
    /// A long report (0x11), on the long interfaces.
    Long,
}

/// The interface is one that pings of this kind are tried on.
pub open spec fn is_target(kind: PingKind, info: InterfaceView) -> bool {
    is_hidpp(info) && (kind == PingKind::Long ==> info.usage == HIDPP_LONG_USAGE)
}

/// The product ids and paths of the interfaces that pings of this kind are tried on.
pub open spec fn target_views(kind: PingKind, list: Seq<InterfaceView>) -> Seq<(u16, Seq<u8>)>
    decreases list.len(),
{
    if list.len() == 0 {
        Seq::empty()
    } else {
        let before = target_views(kind, list.drop_last());
        if is_target(kind, list.last()) {
            before.push((list.last().product_id, list.last().path))
        } else {
            before
        }
    }
}

/// An interface that pings are tried on.
#[derive(Clone, Debug)]
pub struct Target {
    pub pid: u16,
    pub path: Vec<u8>,
}

impl View for Target {
    type V = (u16, Seq<u8>);

    open spec fn view(&self) -> (u16, Seq<u8>) {
        (self.pid, self.path@)
    }
}

/// Where the trial of pings stands.
#[derive(Clone, Copy, Debug, PartialEq, Eq, Structural)]
pub enum PingPhase {
    /// The target is opened.
    Open,
    /// The ping of a slot is written.
    Write { slot: u8 },
    /// The reply to the ping of a slot is read.
    Read { slot: u8 },
    Done,
}

/// What is to be done next for a trial of pings.
#[derive(Clone, Copy, Debug, PartialEq, Eq)]
pub enum PingAction {
    /// Print the heading and open the target with this number.
    Open { target: usize },
    /// Write the ping of this slot.
    Write { slot: u8 },
    /// Read a report of at most `size` bytes, for at most `timeout_ms`.
    Read { timeout_ms: i32, size: usize },
    /// Nothing: all targets were tried.
    Done,
}

/// The trial of pings on a list of interfaces, slot by slot.
#[derive(Debug)]
pub struct PingTrial {
    pub kind: PingKind,
    pub targets: Vec<Target>,
    /// The number of the target at hand.
    pub target: usize,
    pub phase: PingPhase,
}

/// A trial of pings as plain values.
#[verifier::ext_equal]
pub struct TrialView {
    pub kind: PingKind,
    pub targets: Seq<(u16, Seq<u8>)>,
    pub target: int,
    pub phase: PingPhase,
}

impl View for PingTrial {
    type V = TrialView;

    open spec fn view(&self) -> TrialView {
        TrialView {
            kind: self.kind,
            targets: self.targets@.map_values(|target: Target| target@),
            target: self.target as int,
            phase: self.phase,
        }
    }
}

/// The bytes of a ping.
pub open spec fn ping_bytes(kind: PingKind, slot: u8) -> Seq<u8> {
    match kind {
        PingKind::Short => ping_msg(slot, ping_echo(slot)).short_frame(),
        PingKind::Long => ping_msg(slot, ping_echo(slot)).long_frame(),
    }
}

/// The report carries the echo of a short ping, with or without a byte in front.
pub open spec fn echo_matches(report: Seq<u8>, echo: u8) -> bool {
    ||| report.len() >= 7 && report[6] == echo
    ||| report.len() == 8 && report[0] != SHORT_REPORT_ID && report[7] == echo
}

/// "true" or "false".
pub open spec fn bool_text(b: bool) -> Seq<char> {
    if b {
        "true"@
    } else {
        "false"@
    }
}

/// The start of a line on a slot.
pub open spec fn slot_text(slot: u8) -> Seq<char> {
    "   index "@ + decimal(slot as nat) + ": "@
}

/// The line for what came back on a ping; nothing where it timed out.
pub open spec fn reply_text(kind: PingKind, slot: u8, report: Seq<u8>) -> Seq<char> {
    if report.len() == 0 {
        slot_text(slot) + "timeout (no response)"@
    } else {
        let dump = slot_text(slot) + "n="@ + decimal(report.len()) + " ["@ + hex_dump(report)
            + "]"@;
        match kind {
            PingKind::Short => dump + "  echo("@ + hex_digits(ping_echo(slot) as nat, 2, UPPER)
                + ") match="@ + bool_text(echo_matches(report, ping_echo(slot))),
            PingKind::Long => dump,
        }
    }
}

impl TrialView {
    /// Before anything was tried.
    pub open spec fn start(kind: PingKind, list: Seq<InterfaceView>) -> TrialView {
        let targets = target_views(kind, list);
        TrialView {
            kind,
            targets,
            target: 0,
            phase: if targets.len() > 0 {
                PingPhase::Open
            } else {
                PingPhase::Done
            },
        }
    }

    /// A target is at hand until all were tried, and slots are slots.
    pub open spec fn wf(self) -> bool {
        match self.phase {
            PingPhase::Open => 0 <= self.target < self.targets.len(),
            PingPhase::Write { slot } => 0 <= self.target < self.targets.len() && 1 <= slot
                <= MAX_SLOT,
            PingPhase::Read { slot } => 0 <= self.target < self.targets.len() && 1 <= slot
                <= MAX_SLOT,
            PingPhase::Done => true,
        }
    }

    pub open spec fn at(self, phase: PingPhase) -> TrialView {
        TrialView { phase, ..self }
    }

    /// The next action.
    pub open spec fn action(self) -> PingAction {
        match self.phase {
            PingPhase::Open => PingAction::Open { target: self.target as usize },
            PingPhase::Write { slot } => PingAction::Write { slot },
            PingPhase::Read { .. } => match self.kind {
                PingKind::Short => PingAction::Read { timeout_ms: READ_TIMEOUT_MS, size: 8 },
                PingKind::Long => PingAction::Read { timeout_ms: LONG_PING_TIMEOUT_MS, size: 21 },
            },
            PingPhase::Done => PingAction::Done,
        }
    }

    /// The next target is at hand, or all were tried.
    pub open spec fn next_target(self) -> TrialView {
        if self.target + 1 < self.targets.len() {
            TrialView { target: self.target + 1, phase: PingPhase::Open, ..self }
        } else {
            self.at(PingPhase::Done)
        }
    }

    /// The slot behind `slot` is tried, or the next target.
    pub open spec fn next_slot(self, slot: u8) -> TrialView {
        if slot < MAX_SLOT {
            self.at(PingPhase::Write { slot: (slot + 1) as u8 })
        } else {
            self.next_target()
        }
    }

    /// What is printed before the target at hand is opened.
    pub open spec fn heading(self) -> Seq<char> {
        "\n-- PID "@ + hex_digits(self.targets[self.target].0 as nat, 4, UPPER) + "  path="@
            + text_of(self.targets[self.target].1)
    }

    /// After the target was opened, or could not be for a cause.
    pub open spec fn after_open(self, cause: Option<Seq<char>>) -> (TrialView, Option<Seq<char>>) {
        if !(self.phase is Open) {
            (self, None)
        } else {
            match cause {
                None => (self.at(PingPhase::Write { slot: 1 }), Some("   opened OK"@)),
                Some(cause) => (self.next_target(), Some("   open failed: "@ + cause)),
            }
        }
    }

    /// After the ping was written, or could not be for a cause.
    pub open spec fn after_write(self, cause: Option<Seq<char>>) -> (TrialView, Option<Seq<char>>) {
        match self.phase {
            PingPhase::Write { slot } => match cause {
                None => (self.at(PingPhase::Read { slot }), None),
                Some(cause) => (
                    self.next_slot(slot),
                    Some(slot_text(slot) + "write failed: "@ + cause),
                ),
            },
            _ => (self, None),
        }
    }

    /// After a read gave `report`; an empty one is a timeout.
    pub open spec fn after_report(self, report: Seq<u8>) -> (TrialView, Option<Seq<char>>) {
        match self.phase {
            PingPhase::Read { slot } => (
                self.next_slot(slot),
                Some(reply_text(self.kind, slot, report)),
            ),
            _ => (self, None),
        }
    }

    /// After a read failed for a cause.
    pub open spec fn after_read_failure(self, cause: Seq<char>) -> (TrialView, Option<Seq<char>>) {
        match self.phase {
            PingPhase::Read { slot } => (
                self.next_slot(slot),
                Some(slot_text(slot) + "read failed: "@ + cause),
            ),
            _ => (self, None),
        }
    }
}

/// A cause that may be there, as plain values.
pub open spec fn cause_view(cause: Option<&str>) -> Option<Seq<char>> {
    match cause {
        Some(cause) => Some(cause@),
        None => None,
    }
}

/// The bytes of the ping of a slot.
pub fn ping_request(kind: PingKind, slot: u8) -> (request: Vec<u8>)
    ensures
        request@ == ping_bytes(kind, slot),
{
    let mut request: Vec<u8> = Vec::new();
    match kind {
        PingKind::Short => {
            let frame: [u8; 7] = ping_slot(slot).encode();
            request.extend_from_slice(frame.as_slice());
            assert(request@ =~= frame@);
        },
        PingKind::Long => {
            let frame: [u8; 20] = ping_slot(slot).encode_long();
            request.extend_from_slice(frame.as_slice());
            assert(request@ =~= frame@);
        },
    }
    request
}

/// Whether the report carries the echo of a short ping.
pub fn echo_ok(report: &[u8], echo: u8) -> (ok: bool)
    ensures
        ok == echo_matches(report@, echo),
{
    let n: usize = report.len();
    (n >= 7 && report[6] == echo) || (n == 8 && report[0] != SHORT_REPORT_ID && report[7] == echo)
}

fn slot_line(slot: u8) -> (line: String)
    ensures
        line@ == slot_text(slot),
{
    let mut line: String = "   index ".to_owned();
    push_decimal(&mut line, slot as u64);
    line.append(": ");
    line
}

/// The line for what came back on a ping.
pub fn reply_line(kind: PingKind, slot: u8, report: &[u8]) -> (line: String)
    ensures
        line@ == reply_text(kind, slot, report@),
{
    let mut line: String = slot_line(slot);
    if report.len() == 0 {
        line.append("timeout (no response)");
        return line;
    }
    line.append("n=");
    push_decimal(&mut line, report.len() as u64);
    line.append(" [");
    push_hex_dump(&mut line, report);
    line.append("]");
    if let PingKind::Short = kind {
        let echo: u8 = 0x55u8 ^ slot;
        line.append("  echo(");
        push_hex(&mut line, echo as u64, 2, UPPER);
        line.append(") match=");
        if echo_ok(report, echo) {
            line.append("true");
        } else {
            line.append("false");
        }
    }
    line
}

impl PingTrial {
    /// Start trying pings on the interfaces that they can be tried on.
    pub fn start(kind: PingKind, interfaces: &[HidInterface]) -> (trial: PingTrial)
        ensures
            trial@ == TrialView::start(kind, interface_views(interfaces@)),
            trial@.wf(),
    {
        let ghost list = interface_views(interfaces@);
        let mut targets: Vec<Target> = Vec::new();
        let mut i: usize = 0;
        let len: usize = interfaces.len();
        assert(targets@.map_values(|target: Target| target@) =~= target_views(kind, list.take(0)));
        while i < len
            invariant
                i <= len,
                len == interfaces@.len(),
                list == interface_views(interfaces@),
                targets@.map_values(|target: Target| target@) == target_views(
                    kind,
                    list.take(i as int),
                ),
            decreases len - i,
        {
            let info: &HidInterface = &interfaces[i];
            let ghost before = targets@.map_values(|target: Target| target@);
            assert(list.take(i + 1).drop_last() =~= list.take(i as int));
            assert(list.take(i + 1).last() == info@);
            if info.vendor_id == LOGITECH_VID && info.usage_page == HIDPP_USAGE_PAGE && (match kind {
                PingKind::Short => true,
                PingKind::Long => info.usage == HIDPP_LONG_USAGE,
            }) {
                let target: Target = Target { pid: info.product_id, path: copied(&info.path) };
                let ghost view = target@;
                targets.push(target);
                assert(targets@.map_values(|target: Target| target@) =~= before.push(view));
            }
            i += 1;
        }
        assert(list.take(len as int) =~= list);
        let phase: PingPhase = if targets.len() > 0 {
            PingPhase::Open
        } else {
            PingPhase::Done
        };
        PingTrial { kind, targets, target: 0, phase }
    }

    /// What is to be done next.
    pub fn action(&self) -> (action: PingAction)
        ensures
            action == self@.action(),
    {
        match self.phase {
            PingPhase::Open => PingAction::Open { target: self.target },
            PingPhase::Write { slot } => PingAction::Write { slot },
            PingPhase::Read { .. } => match self.kind {
                PingKind::Short => PingAction::Read { timeout_ms: READ_TIMEOUT_MS, size: 8 },
                PingKind::Long => PingAction::Read { timeout_ms: LONG_PING_TIMEOUT_MS, size: 21 },
            },
            PingPhase::Done => PingAction::Done,
        }
    }

    /// What is printed before the target at hand is opened.
    pub fn heading(&self) -> (line: String)
        requires
            self@.wf(),
            !(self@.phase is Done),
        ensures
            line@ == self@.heading(),
    {
        let target: &Target = &self.targets[self.target];
        let mut line: String = "\n-- PID ".to_owned();
        push_hex(&mut line, target.pid as u64, 4, UPPER);
        line.append("  path=");
        line.append(from_utf8_lossy(target.path.as_slice()).as_str());
        line
    }

    fn next_target(&mut self)
        requires
            old(self).target < old(self).targets@.len(),
        ensures
            final(self)@ == old(self)@.next_target(),
    {
        let last: usize = self.targets.len() - 1;
        if self.target < last {
            self.target = self.target + 1;
            self.phase = PingPhase::Open;
        } else {
            self.phase = PingPhase::Done;
        }
    }

    fn next_slot(&mut self, slot: u8)
        requires
            old(self).target < old(self).targets@.len(),
        ensures
            final(self)@ == old(self)@.next_slot(slot),
    {
        if slot < MAX_SLOT {
            self.phase = PingPhase::Write { slot: slot + 1 };
        } else {
            self.next_target();
        }
    }

    /// The target was opened, or could not be for a cause. What is to be printed.
    pub fn on_open(&mut self, cause: Option<&str>) -> (line: Option<String>)
        requires
            old(self)@.wf(),
        ensures
            (final(self)@, text_view(line)) == old(self)@.after_open(cause_view(cause)),
            final(self)@.wf(),
    {
        if let PingPhase::Open = self.phase {
            match cause {
                None => {
                    self.phase = PingPhase::Write { slot: 1 };
                    Some("   opened OK".to_owned())
                },
                Some(cause) => {
                    let mut line: String = "   open failed: ".to_owned();
                    line.append(cause);
                    self.next_target();
                    Some(line)
                },
            }
        } else {
            None
        }
    }

    /// The ping was written, or could not be for a cause. What is to be printed.
    pub fn on_write(&mut self, cause: Option<&str>) -> (line: Option<String>)
        requires
            old(self)@.wf(),
        ensures
            (final(self)@, text_view(line)) == old(self)@.after_write(cause_view(cause)),
            final(self)@.wf(),
    {
        if let PingPhase::Write { slot } = self.phase {
            match cause {
                None => {
                    self.phase = PingPhase::Read { slot };
                    None
                },
                Some(cause) => {
                    let mut line: String = slot_line(slot);
                    line.append("write failed: ");
                    line.append(cause);
                    self.next_slot(slot);
                    Some(line)
                },
            }
        } else {
            None
        }
    }

    /// A read gave `report`, or timed out (it is empty). What is to be printed.
    pub fn on_report(&mut self, report: &[u8]) -> (line: Option<String>)
        requires
            old(self)@.wf(),
        ensures
            (final(self)@, text_view(line)) == old(self)@.after_report(report@),
            final(self)@.wf(),
    {
        if let PingPhase::Read { slot } = self.phase {
            self.next_slot(slot);
            Some(reply_line(self.kind, slot, report))
        } else {
            None
        }
    }

    /// A read failed for a cause. What is to be printed.
    pub fn on_read_failure(&mut self, cause: &str) -> (line: Option<String>)
        requires
            old(self)@.wf(),
        ensures
            (final(self)@, text_view(line)) == old(self)@.after_read_failure(cause@),
            final(self)@.wf(),
    {
        if let PingPhase::Read { slot } = self.phase {
            let mut line: String = slot_line(slot);
            line.append("read failed: ");
            line.append(cause);
            self.next_slot(slot);
            Some(line)
        } else {
            None
        }
    }
}

/// The parts of the diagnostics.
#[derive(Clone, Copy, Debug, PartialEq, Eq, Structural)]
pub enum DiagPart {
    /// What the system lists and which receivers that makes up.
    Overview,
    /// A trial of pings.
    Pings(PingKind),
    /// The probe for notifications.
    Probe,
    /// Nothing: the diagnostics are over.
    Done,
}

/// The part that follows: short pings, long pings and the probe, in this order. Where a
/// trial has nothing to try pings on (`found` is false) the diagnostics are over.
pub open spec fn part_after(part: DiagPart, found: bool) -> DiagPart {
    match part {
        DiagPart::Overview => DiagPart::Pings(PingKind::Short),
        DiagPart::Pings(kind) => if !found {
            DiagPart::Done
        } else if kind == PingKind::Short {
            DiagPart::Pings(PingKind::Long)
        } else {
            DiagPart::Probe
        },
        DiagPart::Probe => DiagPart::Done,
        DiagPart::Done => DiagPart::Done,
    }
}

/// The title of a part, if it has one. The overview has titles among its lines.
pub open spec fn part_title(part: DiagPart) -> Option<Seq<char>> {
    match part {
        DiagPart::Pings(PingKind::Short) => Some(
            "\n=== SHORT ping (report 0x10) on each 0xFF00 interface, indices 1..=6 ==="@,
        ),
        DiagPart::Pings(PingKind::Long) => Some(
            "\n=== LONG ping (report 0x11, 20 bytes) on usage=0x0002 interface, indices 1..=6 ==="@,
        ),
        DiagPart::Probe => Some(
            "\n=== Notification probe (short collection: enable + announce, listen ~10s) ==="@,
        ),
        _ => None,
    }
}

/// What is printed where there is nothing to try pings on.
pub open spec fn no_target_text(kind: PingKind) -> Seq<char> {
    match kind {
        PingKind::Short => "(no 0xFF00 interface to probe)"@,
        PingKind::Long => "(no usage=0x0002 long-report interface found)"@,
    }
}

/// The part that follows `part`. Whether a trial found something to try pings on is told
/// by `found`.
pub fn next_part(part: DiagPart, found: bool) -> (next: DiagPart)
    ensures
        next == part_after(part, found),
{
    match part {
        DiagPart::Overview => DiagPart::Pings(PingKind::Short),
        DiagPart::Pings(kind) => {
            if !found {
                DiagPart::Done
            } else {
                match kind {
                    PingKind::Short => DiagPart::Pings(PingKind::Long),
                    PingKind::Long => DiagPart::Probe,
                }
            }
        },
        DiagPart::Probe => DiagPart::Done,
        DiagPart::Done => DiagPart::Done,
    }
}

/// The title of a part, if it has one.
pub fn title(part: DiagPart) -> (line: Option<String>)
    ensures
        text_view(line) == part_title(part),
{
    match part {
        DiagPart::Pings(PingKind::Short) => Some(
            "\n=== SHORT ping (report 0x10) on each 0xFF00 interface, indices 1..=6 ===".to_owned(),
        ),
        DiagPart::Pings(PingKind::Long) => Some(
            "\n=== LONG ping (report 0x11, 20 bytes) on usage=0x0002 interface, indices 1..=6 ===".to_owned(),
        ),
        DiagPart::Probe => Some(
            "\n=== Notification probe (short collection: enable + announce, listen ~10s) ===".to_owned(),
        ),
        _ => None,
    }
}

impl PingTrial {
    /// What is printed instead of a trial, where there is nothing to try pings on. The
    /// diagnostics end there.
    pub fn dead_end(&self) -> (line: Option<String>)
        ensures
            text_view(line) == if self@.targets.len() == 0 {
                Some(no_target_text(self@.kind))
            } else {
                None
            },
    {
        if self.targets.len() > 0 {
            return None;
        }
        match self.kind {
            PingKind::Short => Some("(no 0xFF00 interface to probe)".to_owned()),
            PingKind::Long => Some("(no usage=0x0002 long-report interface found)".to_owned()),
        }
    }
}

/// The name of a class of reports.
pub open spec fn class_text(class: ReportClass) -> Seq<char> {
    match class {
        ReportClass::Reply => "Reply"@,
        ReportClass::RegisterReply { sub_id } => "RegisterReply { sub_id: "@ + decimal(
            sub_id as nat,
        ) + " }"@,
        ReportClass::FeatureEvent { device_index, feature_index } => "FeatureEvent { device_index: "@
            + decimal(device_index as nat) + ", feature_index: "@ + decimal(feature_index as nat)
            + " }"@,
        ReportClass::Connection { device_index } => "Connection { device_index: "@ + decimal(
            device_index as nat,
        ) + " }"@,
        ReportClass::Notification { sub_id } => "Notification { sub_id: "@ + decimal(sub_id as nat)
            + " }"@,
        ReportClass::Error => "Error"@,
    }
}

/// A connection notification in words.
pub open spec fn connection_text(conn: ConnectionNotification) -> Seq<char> {
    "ConnectionNotification { device_index: "@ + decimal(conn.device_index as nat)
        + ", link_established: "@ + bool_text(conn.link_established) + ", wpid: "@ + decimal(
        conn.wpid as nat,
    ) + " }"@
}

/// What a report means, in words.
pub open spec fn meaning_text(report: Seq<u8>) -> Seq<char> {
    match header_of(report, report.len() as int) {
        Some(header) => match connection_of(header) {
            Some(conn) => class_text(class_of(header)) + "  "@ + connection_text(conn),
            None => class_text(class_of(header)),
        },
        None => "<runt>"@,
    }
}

/// The name of a class of reports.
pub fn class_name(class: ReportClass) -> (text: String)
    ensures
        text@ == class_text(class),
{
    match class {
        ReportClass::Reply => "Reply".to_owned(),
        ReportClass::RegisterReply { sub_id } => {
            let mut text: String = "RegisterReply { sub_id: ".to_owned();
            push_decimal(&mut text, sub_id as u64);
            text.append(" }");
            text
        },
        ReportClass::FeatureEvent { device_index, feature_index } => {
            let mut text: String = "FeatureEvent { device_index: ".to_owned();
            push_decimal(&mut text, device_index as u64);
            text.append(", feature_index: ");
            push_decimal(&mut text, feature_index as u64);
            text.append(" }");
            text
        },
        ReportClass::Connection { device_index } => {
            let mut text: String = "Connection { device_index: ".to_owned();
            push_decimal(&mut text, device_index as u64);
            text.append(" }");
            text
        },
        ReportClass::Notification { sub_id } => {
            let mut text: String = "Notification { sub_id: ".to_owned();
            push_decimal(&mut text, sub_id as u64);
            text.append(" }");
            text
        },
        ReportClass::Error => "Error".to_owned(),
    }
}

/// A connection notification in words.
pub fn describe_connection(conn: &ConnectionNotification) -> (text: String)
    ensures
        text@ == connection_text(*conn),
{
    let mut text: String = "ConnectionNotification { device_index: ".to_owned();
    push_decimal(&mut text, conn.device_index as u64);
    text.append(", link_established: ");
    if conn.link_established {
        text.append("true");
    } else {
        text.append("false");
    }
    text.append(", wpid: ");
    push_decimal(&mut text, conn.wpid as u64);
    text.append(" }");
    text
}

/// What a report means, in words.
pub fn describe_report(report: &[u8]) -> (text: String)
    ensures
        text@ == meaning_text(report@),
{
    match normalize_report(report, report.len()) {
        Some(header) => {
            let mut text: String = class_name(classify(&header));
            if let Some(conn) = parse_connection(&header) {
                text.append("  ");
                text.append(describe_connection(&conn).as_str());
            }
            text
        },
        None => "<runt>".to_owned(),
    }
}

/// Which interface of a receiver is looked at.
#[derive(Clone, Copy, Debug, PartialEq, Eq, Structural)]
pub enum Side {
    Short,
    Long,
}

/// Where the probe for notifications stands.
#[derive(Clone, Copy, Debug, PartialEq, Eq, Structural)]
pub enum ProbePhase {
    /// The short collection is opened.
    Open,
    /// The receiver is told to push notifications.
    Enable,
    /// The receiver is asked how many devices it has.
    Count,
    /// The receiver is asked to announce its devices.
    Announce,
    /// The long collection is opened.
    OpenLong,
    /// A report is listened for, with so many looks left after this one.
    Listen { side: Side, has_long: bool, left: usize, heard: bool },
    Done,
}

/// What is to be done next for a probe for notifications.
#[derive(Clone, Copy, Debug, PartialEq, Eq)]
pub enum ProbeAction {
    /// Print the heading and open the short collection of the receiver with this
    /// number.
    OpenNotifier { index: usize },
    EnableNotifications,
    AskConnectedCount,
    PokeAnnounce,
    /// Open the long collection of the receiver with this number.
    OpenReceiver { index: usize },
    /// Read one report on a side, for at most `timeout_ms`.
    Listen { side: Side, timeout_ms: i32 },
    /// Nothing: all receivers were probed.
    Done,
}

/// The probe for notifications of all receivers.
///
/// Notifications are enabled, the connected count is read and the receiver is asked
/// to announce; then the reports of both collections are printed and classified for
/// about 10 s. A connection among them is the instant signal of an arrival that the tray
/// uses; a battery event on the long collection shows that the device pushes its
/// charging state. Where the short collection is absent or silent, the tray falls back to
/// the ping sweep and the periodic safety re-read.
#[derive(Debug)]
pub struct NotificationProbe {
    /// The product ids of the receivers.
    pub pids: Vec<u16>,
    /// The number of the receiver at hand.
    pub index: usize,
    pub phase: ProbePhase,
}

/// A probe as plain values.
#[verifier::ext_equal]
pub struct ProbeView {
    pub pids: Seq<u16>,
    pub index: int,
    pub phase: ProbePhase,
}

impl View for NotificationProbe {
    type V = ProbeView;

    open spec fn view(&self) -> ProbeView {
        ProbeView { pids: self.pids@, index: self.index as int, phase: self.phase }
    }
}

/// The start of a line on what is heard on a side.
pub open spec fn side_text(side: Side) -> Seq<char> {
    match side {
        Side::Short => "   [short] "@,
        Side::Long => "   [long] "@,
    }
}

/// The line for a report that was heard.
pub open spec fn heard_text(side: Side, report: Seq<u8>) -> Seq<char> {
    side_text(side) + "n="@ + decimal(report.len()) + " ["@ + hex_dump(report) + "]  -> "@
        + meaning_text(report)
}

/// The line for the outcome of a step.
pub open spec fn step_text(
    name: Seq<char>,
    good: Seq<char>,
    bad: Seq<char>,
    outcome: Result<(), HidError>,
) -> Seq<char> {
    match outcome {
        Ok(_) => "   "@ + name + ": "@ + good,
        Err(err) => "   "@ + name + ": "@ + bad + " ("@ + error_text(err) + ")"@,
    }
}

/// The last line of a receiver that was not heard of.
pub open spec fn silence_text() -> Seq<char> {
    "   (no reports — receiver does not push notifications)"@
}

impl ProbeView {
    /// Before anything was done.
    pub open spec fn start(pids: Seq<u16>) -> ProbeView {
        ProbeView {
            pids,
            index: 0,
            phase: if pids.len() > 0 {
                ProbePhase::Open
            } else {
                ProbePhase::Done
            },
        }
    }

    /// A receiver is at hand until all were probed.
    pub open spec fn wf(self) -> bool {
        &&& self.phase is Done || 0 <= self.index < self.pids.len()
        &&& match self.phase {
            ProbePhase::Listen { side, has_long, left, .. } => (side == Side::Long ==> has_long)
                && left < LISTEN_LOOKS,
            _ => true,
        }
    }

    pub open spec fn at(self, phase: ProbePhase) -> ProbeView {
        ProbeView { phase, ..self }
    }

    /// The next action.
    pub open spec fn action(self) -> ProbeAction {
        match self.phase {
            ProbePhase::Open => ProbeAction::OpenNotifier { index: self.index as usize },
            ProbePhase::Enable => ProbeAction::EnableNotifications,
            ProbePhase::Count => ProbeAction::AskConnectedCount,
            ProbePhase::Announce => ProbeAction::PokeAnnounce,
            ProbePhase::OpenLong => ProbeAction::OpenReceiver { index: self.index as usize },
            ProbePhase::Listen { side, .. } => ProbeAction::Listen {
                side,
                timeout_ms: LISTEN_TIMEOUT_MS,
            },
            ProbePhase::Done => ProbeAction::Done,
        }
    }

    /// What is printed before the receiver at hand is opened.
    pub open spec fn heading(self) -> Seq<char> {
        "\n-- PID "@ + hex_digits(self.pids[self.index] as nat, 4, UPPER)
    }

    /// The next receiver is at hand, or all were probed.
    pub open spec fn next_receiver(self) -> ProbeView {
        if self.index + 1 < self.pids.len() {
            ProbeView { index: self.index + 1, phase: ProbePhase::Open, ..self }
        } else {
            self.at(ProbePhase::Done)
        }
    }

    /// After a look at `side` was over: the two collections are looked at in turn, or
    /// the short one alone where the long one is not open. What is printed where that was
    /// the last look and nothing was heard.
    pub open spec fn after_look(self, side: Side, has_long: bool, left: usize, heard: bool) -> (
        ProbeView,
        Option<Seq<char>>,
    ) {
        if left > 0 {
            (
                self.at(
                    ProbePhase::Listen {
                        side: if side == Side::Short && has_long {
                            Side::Long
                        } else {
                            Side::Short
                        },
                        has_long,
                        left: (left - 1) as usize,
                        heard,
                    },
                ),
                None,
            )
        } else if heard {
            (self.next_receiver(), None)
        } else {
            (self.next_receiver(), Some(silence_text()))
        }
    }

    /// After the short collection was opened, or could not be.
    pub open spec fn after_open(self, outcome: Result<(), HidError>) -> (
        ProbeView,
        Option<Seq<char>>,
    ) {
        if !(self.phase is Open) {
            (self, None)
        } else {
            match outcome {
                Ok(_) => (self.at(ProbePhase::Enable), None),
                Err(err) => (self.next_receiver(), Some("   "@ + error_text(err))),
            }
        }
    }

    /// After the receiver was told to push notifications.
    pub open spec fn after_enable(self, outcome: Result<(), HidError>) -> (
        ProbeView,
        Option<Seq<char>>,
    ) {
        if !(self.phase is Enable) {
            (self, None)
        } else {
            (
                self.at(ProbePhase::Count),
                Some(step_text("enable_notifications"@, "OK"@, "FAILED"@, outcome)),
            )
        }
    }

    /// After the receiver was asked how many devices it has.
    pub open spec fn after_count(self, outcome: Result<u8, HidError>) -> (
        ProbeView,
        Option<Seq<char>>,
    ) {
        if !(self.phase is Count) {
            (self, None)
        } else {
            (
                self.at(ProbePhase::Announce),
                Some(
                    match outcome {
                        Ok(count) => step_text(
                            "connected_count"@,
                            decimal(count as nat),
                            "unavailable"@,
                            Ok(()),
                        ),
                        Err(err) => step_text("connected_count"@, ""@, "unavailable"@, Err(err)),
                    },
                ),
            )
        }
    }

    /// After the receiver was asked to announce its devices.
    pub open spec fn after_announce(self, outcome: Result<(), HidError>) -> (
        ProbeView,
        Option<Seq<char>>,
    ) {
        if !(self.phase is Announce) {
            (self, None)
        } else {
            (
                self.at(ProbePhase::OpenLong),
                Some(step_text("poke_announce"@, "sent"@, "FAILED"@, outcome)),
            )
        }
    }

    /// After the long collection was opened, or could not be.
    pub open spec fn after_open_long(self, opened: bool) -> (ProbeView, Option<Seq<char>>) {
        if !(self.phase is OpenLong) {
            (self, None)
        } else {
            (
                self.at(
                    ProbePhase::Listen {
                        side: Side::Short,
                        has_long: opened,
                        left: (LISTEN_LOOKS - 1) as usize,
                        heard: false,
                    },
                ),
                Some("   listening ~10s on SHORT + LONG — toggle the charger now..."@),
            )
        }
    }

    /// After a read gave `report`, which is empty where nothing came. The lines to
    /// print.
    pub open spec fn after_report(self, report: Seq<u8>) -> (ProbeView, Seq<Seq<char>>) {
        match self.phase {
            ProbePhase::Listen { side, has_long, left, heard } => {
                let (next, last) = self.after_look(side, has_long, left, heard || report.len() > 0);
                (
                    next,
                    (if report.len() > 0 {
                        seq![heard_text(side, report)]
                    } else {
                        Seq::empty()
                    }) + optional(last),
                )
            },
            _ => (self, Seq::empty()),
        }
    }

    /// After a read failed for a cause. The lines to print.
    pub open spec fn after_read_failure(self, cause: Seq<char>) -> (ProbeView, Seq<Seq<char>>) {
        match self.phase {
            ProbePhase::Listen { side, has_long, left, heard } => {
                let (next, last) = self.after_look(side, has_long, left, heard);
                (next, seq![side_text(side) + "read failed: "@ + cause] + optional(last))
            },
            _ => (self, Seq::empty()),
        }
    }
}

/// A line that may be there, as a list.
pub open spec fn optional(line: Option<Seq<char>>) -> Seq<Seq<char>> {
    match line {
        Some(line) => seq![line],
        None => Seq::empty(),
    }
}

fn step_line(name: &str, good: &str, bad: &str, outcome: Result<(), HidError>) -> (line: String)
    ensures
        line@ == step_text(name@, good@, bad@, outcome),
{
    let mut line: String = "   ".to_owned();
    line.append(name);
    line.append(": ");
    match outcome {
        Ok(_) => line.append(good),
        Err(err) => {
            line.append(bad);
            line.append(" (");
            line.append(err.message().as_str());
            line.append(")");
        },
    }
    line
}

fn side_line(side: Side) -> (line: String)
    ensures
        line@ == side_text(side),
{
    match side {
        Side::Short => "   [short] ".to_owned(),
        Side::Long => "   [long] ".to_owned(),
    }
}

/// The line for a report that was heard.
pub fn heard_line(side: Side, report: &[u8]) -> (line: String)
    ensures
        line@ == heard_text(side, report@),
{
    let mut line: String = side_line(side);
    line.append("n=");
    push_decimal(&mut line, report.len() as u64);
    line.append(" [");
    push_hex_dump(&mut line, report);
    line.append("]  -> ");
    line.append(describe_report(report).as_str());
    line
}

impl NotificationProbe {
    /// Start probing the receivers.
    pub fn start(pids: Vec<u16>) -> (probe: NotificationProbe)
        ensures
            probe@ == ProbeView::start(pids@),
            probe@.wf(),
    {
        let phase: ProbePhase = if pids.len() > 0 {
            ProbePhase::Open
        } else {
            ProbePhase::Done
        };
        NotificationProbe { pids, index: 0, phase }
    }

    /// What is to be done next.
    pub fn action(&self) -> (action: ProbeAction)
        ensures
            action == self@.action(),
    {
        match self.phase {
            ProbePhase::Open => ProbeAction::OpenNotifier { index: self.index },
            ProbePhase::Enable => ProbeAction::EnableNotifications,
            ProbePhase::Count => ProbeAction::AskConnectedCount,
            ProbePhase::Announce => ProbeAction::PokeAnnounce,
            ProbePhase::OpenLong => ProbeAction::OpenReceiver { index: self.index },
            ProbePhase::Listen { side, .. } => ProbeAction::Listen {
                side,
                timeout_ms: LISTEN_TIMEOUT_MS,
            },
            ProbePhase::Done => ProbeAction::Done,
        }
    }

    /// What is printed before the receiver at hand is opened.
    pub fn heading(&self) -> (line: String)
        requires
            self@.wf(),
            !(self@.phase is Done),
        ensures
            line@ == self@.heading(),
    {
        let mut line: String = "\n-- PID ".to_owned();
        push_hex(&mut line, self.pids[self.index] as u64, 4, UPPER);
        line
    }

    fn next_receiver(&mut self)
        requires
            old(self).index < old(self).pids@.len(),
        ensures
            final(self)@ == old(self)@.next_receiver(),
    {
        let last: usize = self.pids.len() - 1;
        if self.index < last {
            self.index = self.index + 1;
            self.phase = ProbePhase::Open;
        } else {
            self.phase = ProbePhase::Done;
        }
    }

    fn after_look(&mut self, side: Side, has_long: bool, left: usize, heard: bool) -> (line: Option<
        String,
    >)
        requires
            old(self).index < old(self).pids@.len(),
        ensures
            (final(self)@, text_view(line)) == old(self)@.after_look(side, has_long, left, heard),
    {
        if left > 0 {
            let next: Side = if side == Side::Short && has_long {
                Side::Long
            } else {
                Side::Short
            };
            self.phase = ProbePhase::Listen { side: next, has_long, left: left - 1, heard };
            None
        } else {
            self.next_receiver();
            if heard {
                None
            } else {
                Some("   (no reports — receiver does not push notifications)".to_owned())
            }
        }
    }

    /// The short collection was opened, or could not be. What is to be printed.
    pub fn on_open(&mut self, outcome: Result<(), HidError>) -> (line: Option<String>)
        requires
            old(self)@.wf(),
        ensures
            (final(self)@, text_view(line)) == old(self)@.after_open(outcome),
            final(self)@.wf(),
    {
        if let ProbePhase::Open = self.phase {
            match outcome {
                Ok(_) => {
                    self.phase = ProbePhase::Enable;
                    None
                },
                Err(err) => {
                    let mut line: String = "   ".to_owned();
                    line.append(err.message().as_str());
                    self.next_receiver();
                    Some(line)
                },
            }
        } else {
            None
        }
    }

    /// The receiver was told to push notifications. What is to be printed.
    pub fn on_enable(&mut self, outcome: Result<(), HidError>) -> (line: Option<String>)
        requires
            old(self)@.wf(),
        ensures
            (final(self)@, text_view(line)) == old(self)@.after_enable(outcome),
            final(self)@.wf(),
    {
        if let ProbePhase::Enable = self.phase {
            self.phase = ProbePhase::Count;
            Some(step_line("enable_notifications", "OK", "FAILED", outcome))
        } else {
            None
        }
    }

    /// The receiver was asked how many devices it has. What is to be printed.
    pub fn on_count(&mut self, outcome: Result<u8, HidError>) -> (line: Option<String>)
        requires
            old(self)@.wf(),
        ensures
            (final(self)@, text_view(line)) == old(self)@.after_count(outcome),
            final(self)@.wf(),
    {
        if let ProbePhase::Count = self.phase {
            self.phase = ProbePhase::Announce;
            match outcome {
                Ok(count) => {
                    let mut number: String = String::new();
                    push_decimal(&mut number, count as u64);
                    assert(number@ =~= decimal(count as nat));
                    Some(step_line("connected_count", number.as_str(), "unavailable", Ok(())))
                },
                Err(err) => Some(step_line("connected_count", "", "unavailable", Err(err))),
            }
        } else {
            None
        }
    }

    /// The receiver was asked to announce its devices. What is to be printed.
    pub fn on_announce(&mut self, outcome: Result<(), HidError>) -> (line: Option<String>)
        requires
            old(self)@.wf(),
        ensures
            (final(self)@, text_view(line)) == old(self)@.after_announce(outcome),
            final(self)@.wf(),
    {
        if let ProbePhase::Announce = self.phase {
            self.phase = ProbePhase::OpenLong;
            Some(step_line("poke_announce", "sent", "FAILED", outcome))
        } else {
            None
        }
    }

    /// The long collection was opened, or could not be. What is to be printed.
    pub fn on_open_long(&mut self, opened: bool) -> (line: Option<String>)
        requires
            old(self)@.wf(),
        ensures
            (final(self)@, text_view(line)) == old(self)@.after_open_long(opened),
            final(self)@.wf(),
    {
        if let ProbePhase::OpenLong = self.phase {
            self.phase =
            ProbePhase::Listen {
                side: Side::Short,
                has_long: opened,
                left: LISTEN_LOOKS - 1,
                heard: false,
            };
            Some("   listening ~10s on SHORT + LONG — toggle the charger now...".to_owned())
        } else {
            None
        }
    }

    /// A read gave `report`, or nothing came (it is empty). What is to be printed.
    pub fn on_report(&mut self, report: &[u8]) -> (lines: Vec<String>)
        requires
            old(self)@.wf(),
        ensures
            (final(self)@, lines_of(lines@)) == old(self)@.after_report(report@),
            final(self)@.wf(),
    {
        let mut lines: Vec<String> = Vec::new();
        assert(lines_of(lines@) =~= Seq::<Seq<char>>::empty());
        if let ProbePhase::Listen { side, has_long, left, heard } = self.phase {
            let came: bool = report.len() > 0;
            if came {
                lines.push(heard_line(side, report));
                assert(lines_of(lines@) =~= seq![heard_text(side, report@)]);
            }
            let ghost first = lines_of(lines@);
            if let Some(last) = self.after_look(side, has_long, left, heard || came) {
                let ghost text = last@;
                lines.push(last);
                assert(lines_of(lines@) =~= first + seq![text]);
            } else {
                assert(lines_of(lines@) =~= first + Seq::empty());
            }
        }
        lines
    }

    /// A read failed for a cause. What is to be printed.
    pub fn on_read_failure(&mut self, cause: &str) -> (lines: Vec<String>)
        requires
            old(self)@.wf(),
        ensures
            (final(self)@, lines_of(lines@)) == old(self)@.after_read_failure(cause@),
            final(self)@.wf(),
    {
        let mut lines: Vec<String> = Vec::new();
        assert(lines_of(lines@) =~= Seq::<Seq<char>>::empty());
        if let ProbePhase::Listen { side, has_long, left, heard } = self.phase {
            let mut line: String = side_line(side);
            line.append("read failed: ");
            line.append(cause);
            let ghost shown = line@;
            lines.push(line);
            assert(lines_of(lines@) =~= seq![shown]);
            if let Some(last) = self.after_look(side, has_long, left, heard) {
                let ghost text = last@;
                lines.push(last);
                assert(lines_of(lines@) =~= seq![shown] + seq![text]);
            } else {
                assert(lines_of(lines@) =~= seq![shown] + Seq::empty());
            }
        }
        lines
    }
}

/// The bytes of the pings. Byte 3 joins function 1 and our software id.
pub proof fn law_ping_bytes(slot: u8)
    ensures
        ping_bytes(PingKind::Short, slot) == seq![
            SHORT_REPORT_ID,
            slot,
            0x00u8,
            0x1Au8,
            0x00u8,
            0x00u8,
            ping_echo(slot),
        ],
        ping_bytes(PingKind::Long, slot) == seq![
            LONG_REPORT_ID,
            slot,
            0x00u8,
            0x1Au8,
            0x00u8,
            0x00u8,
            ping_echo(slot),
        ] + Seq::new(13, |i: int| 0u8),
{
    assert(ping_bytes(PingKind::Short, slot) =~= seq![
        SHORT_REPORT_ID,
        slot,
        0x00u8,
        0x1Au8,
        0x00u8,
        0x00u8,
        ping_echo(slot),
    ]);
}

/// A device that sends a ping back passes the echo check, also where a byte is put in
/// front of the report.
pub proof fn law_echoed_ping_matches(slot: u8, first: u8)
    requires
        first != SHORT_REPORT_ID,
    ensures
        echo_matches(ping_bytes(PingKind::Short, slot), ping_echo(slot)),
        echo_matches(seq![first] + ping_bytes(PingKind::Short, slot), ping_echo(slot)),
{
    law_ping_bytes(slot);
}

/// What comes of a ping.
pub enum PingOutcome {
    /// It could not be written for a cause.
    NotWritten(Seq<char>),
    /// The read after it gave a report, or nothing.
    Read(Seq<u8>),
    /// The read after it failed for a cause.
    NotRead(Seq<char>),
}

impl TrialView {
    /// The trial after one ping, and the line that is printed of it.
    pub open spec fn after_ping(self, outcome: PingOutcome) -> (TrialView, Option<Seq<char>>) {
        match outcome {
            PingOutcome::NotWritten(cause) => self.after_write(Some(cause)),
            PingOutcome::Read(report) => self.after_write(None).0.after_report(report),
            PingOutcome::NotRead(cause) => self.after_write(None).0.after_read_failure(cause),
        }
    }

    /// The trial after a series of pings.
    pub open spec fn after_pings(self, outcomes: Seq<PingOutcome>) -> TrialView
        decreases outcomes.len(),
    {
        if outcomes.len() == 0 {
            self
        } else {
            self.after_pings(outcomes.drop_last()).after_ping(outcomes.last()).0
        }
    }
}

/// On a target that was opened every slot is tried once, in order, whatever comes of the
/// pings; then the next target is at hand. A line is printed of every ping.
pub proof fn law_trial_covers_slots(
    trial: TrialView,
    outcomes: Seq<PingOutcome>,
    outcome: PingOutcome,
)
    requires
        trial.wf(),
        trial.phase == (PingPhase::Write { slot: 1 }),
        outcomes.len() <= MAX_SLOT,
    ensures
        trial.after_pings(outcomes) == if outcomes.len() < MAX_SLOT {
            trial.at(PingPhase::Write { slot: (outcomes.len() + 1) as u8 })
        } else {
            trial.next_target()
        },
        outcomes.len() < MAX_SLOT ==> trial.after_pings(outcomes).after_ping(outcome).1 is Some,
    decreases outcomes.len(),
{
    if outcomes.len() > 0 {
        law_trial_covers_slots(trial, outcomes.drop_last(), outcomes.last());
    }
}

impl ProbeView {
    /// How many looks the receiver at hand still gets.
    pub open spec fn looks_left(self) -> int {
        match self.phase {
            ProbePhase::Listen { left, .. } => left + 1,
            _ => 0,
        }
    }

    /// The probe after so many looks that brought nothing.
    pub open spec fn after_silence(self, looks: nat) -> ProbeView
        decreases looks,
    {
        if looks == 0 {
            self
        } else {
            self.after_silence((looks - 1) as nat).after_report(Seq::empty()).0
        }
    }
}

/// A receiver is listened to for 10 s at most, whether its long collection is open or
/// not: the looks that it gets may take so long together. Every look is one less; after
/// the last the next receiver is at hand.
pub proof fn law_listening_is_bounded(probe: ProbeView, opened: bool, report: Seq<u8>, cause: Seq<char>)
    requires
        probe.wf(),
    ensures
        probe.phase is OpenLong ==> probe.after_open_long(opened).0.looks_left()
            * LISTEN_TIMEOUT_MS == 10_000,
        probe.action() matches ProbeAction::Listen { timeout_ms, .. } ==> timeout_ms
            == LISTEN_TIMEOUT_MS,
        probe.looks_left() > 1 ==> probe.after_report(report).0.looks_left() == probe.looks_left()
            - 1 && probe.after_read_failure(cause).0.looks_left() == probe.looks_left() - 1,
        probe.looks_left() == 1 ==> probe.after_report(report).0 == probe.next_receiver()
            && probe.after_read_failure(cause).0 == probe.next_receiver(),
        probe.phase is Listen <==> probe.looks_left() > 0,
{
}

/// A receiver that pushes nothing is listened to for all of its looks, on both
/// collections in turn where both are open; then the next receiver is at hand.
pub proof fn law_quiet_receiver_is_listened_out(probe: ProbeView, opened: bool, looks: nat)
    requires
        probe.wf(),
        probe.phase is OpenLong,
        looks <= LISTEN_LOOKS,
    ensures
        probe.after_open_long(opened).0.after_silence(looks) == if looks < LISTEN_LOOKS {
            probe.at(
                ProbePhase::Listen {
                    side: if opened && looks % 2 == 1 {
                        Side::Long
                    } else {
                        Side::Short
                    },
                    has_long: opened,
                    left: (LISTEN_LOOKS - 1 - looks) as usize,
                    heard: false,
                },
            )
        } else {
            probe.next_receiver()
        },
    decreases looks,
{
    if looks > 0 {
        law_quiet_receiver_is_listened_out(probe, opened, (looks - 1) as nat);
    }
}

/// Where the last look brings nothing, it is printed that the receiver pushes nothing,
/// unless a report was heard on an earlier look.
pub proof fn law_silence_is_told(probe: ProbeView)
    requires
        probe.wf(),
        probe.looks_left() == 1,
    ensures
        probe.phase matches ProbePhase::Listen { heard, .. } ==> probe.after_report(Seq::empty()).1
            == if heard {
            Seq::<Seq<char>>::empty()
        } else {
            seq![silence_text()]
        },
{
    assert(Seq::<Seq<char>>::empty() + seq![silence_text()] =~= seq![silence_text()]);
    assert(Seq::<Seq<char>>::empty() + Seq::<Seq<char>>::empty() =~= Seq::<Seq<char>>::empty());
}

/// The part that comes after `n` others, where the system lists these interfaces.
pub open spec fn part_at(list: Seq<InterfaceView>, n: nat) -> DiagPart
    decreases n,
{
    if n == 0 {
        DiagPart::Overview
    } else {
        let part = part_at(list, (n - 1) as nat);
        part_after(
            part,
            match part {
                DiagPart::Pings(kind) => target_views(kind, list).len() > 0,
                _ => true,
            },
        )
    }
}

/// The diagnostics end after the parts that the interfaces allow: without a HID++
/// interface there is no long trial, without a long one there is no probe, and with one
/// all parts are gone through.
pub proof fn law_diagnostics_end(list: Seq<InterfaceView>)
    ensures
        part_at(list, 1) == DiagPart::Pings(PingKind::Short),
        target_views(PingKind::Short, list).len() == 0 ==> part_at(list, 2) == DiagPart::Done,
        target_views(PingKind::Short, list).len() > 0 ==> part_at(list, 2) == DiagPart::Pings(
            PingKind::Long,
        ),
        target_views(PingKind::Long, list).len() == 0 ==> part_at(list, 3) == DiagPart::Done,
        target_views(PingKind::Long, list).len() > 0 ==> part_at(list, 3) == DiagPart::Probe,
        part_at(list, 4) == DiagPart::Done,
{
    lemma_long_targets_are_short_targets(list);
    reveal_with_fuel(part_at, 5);
}

proof fn lemma_long_targets_are_short_targets(list: Seq<InterfaceView>)
    ensures
        target_views(PingKind::Long, list).len() <= target_views(PingKind::Short, list).len(),
    decreases list.len(),
{
    if list.len() > 0 {
        lemma_long_targets_are_short_targets(list.drop_last());
    }
}

/// What is listed of an interface: its product id, usage page, usage and interface number,
/// its product name, and its path at the end.
pub proof fn law_interface_text_parts(info: InterfaceView)
    ensures
        ({
            let text = interface_text(info);
            let number = right_aligned(signed_decimal(info.interface_number as int), 3);
            let path = text_of(info.path);
            let product = match info.product {
                Some(product) => product,
                None => "<none>"@,
            };
            let name = 47 + number.len() as int + 3;
            &&& text.take(4) == "PID "@
            &&& number_of(text.subrange(4, 8), 16) == info.product_id
            &&& text.subrange(8, 23) == "  usage_page=0x"@
            &&& number_of(text.subrange(23, 27), 16) == info.usage_page
            &&& text.subrange(27, 36) == " usage=0x"@
            &&& number_of(text.subrange(36, 40), 16) == info.usage
            &&& text.subrange(40, 47) == " iface="@
            &&& text.subrange(47, 47 + number.len() as int) == number
            &&& text.subrange(name, name + product.len() as int) == product
            &&& text.skip(text.len() - path.len()) == path
        }),
{
    reveal_strlit("PID ");
    reveal_strlit("  usage_page=0x");
    reveal_strlit(" usage=0x");
    reveal_strlit(" iface=");
    reveal_strlit("  \"");
    reveal_strlit("\"\n           path=");
    reveal_with_fuel(vstd::arithmetic::power::pow, 5);
    law_hex_digits_value(info.product_id as nat, 4, UPPER);
    law_hex_digits_value(info.usage_page as nat, 4, UPPER);
    law_hex_digits_value(info.usage as nat, 4, UPPER);
    let text = interface_text(info);
    let number = right_aligned(signed_decimal(info.interface_number as int), 3);
    let path = text_of(info.path);
    let product = match info.product {
        Some(product) => product,
        None => "<none>"@,
    };
    let name = 47 + number.len() as int + 3;
    assert(text.take(4) =~= "PID "@);
    assert(text.subrange(4, 8) =~= hex_digits(info.product_id as nat, 4, UPPER));
    assert(text.subrange(8, 23) =~= "  usage_page=0x"@);
    assert(text.subrange(23, 27) =~= hex_digits(info.usage_page as nat, 4, UPPER));
    assert(text.subrange(27, 36) =~= " usage=0x"@);
    assert(text.subrange(36, 40) =~= hex_digits(info.usage as nat, 4, UPPER));
    assert(text.subrange(40, 47) =~= " iface="@);
    assert(text.subrange(47, 47 + number.len() as int) =~= number);
    assert(text.subrange(name, name + product.len() as int) =~= product);
    assert(text.skip(text.len() - path.len()) =~= path);
}

/// What is shown of a receiver: its product id, the path of its long collection, and that
/// of its short collection or that there is none.
pub proof fn law_receiver_text_parts(receiver: ReceiverView)
    ensures
        ({
            let text = receiver_text(receiver);
            let long = text_of(receiver.long_path);
            &&& text.take(4) == "PID "@
            &&& number_of(text.subrange(4, 8), 16) == receiver.pid
            &&& text.subrange(29, 29 + long.len() as int) == long
            &&& receiver.short_path matches Some(path) ==> text.skip(50 + long.len() as int)
                == text_of(path)
            &&& receiver.short_path is None ==> text.skip(50 + long.len() as int) == "<none>"@
        }),
{
    reveal_strlit("PID ");
    reveal_strlit("\n   long  (0x0002) = ");
    reveal_strlit("\n   short (0x0001) = ");
    reveal_strlit("<none>");
    reveal_with_fuel(vstd::arithmetic::power::pow, 5);
    law_hex_digits_value(receiver.pid as nat, 4, UPPER);
    let text = receiver_text(receiver);
    let long = text_of(receiver.long_path);
    assert(text.take(4) =~= "PID "@);
    assert(text.subrange(4, 8) =~= hex_digits(receiver.pid as nat, 4, UPPER));
    assert(text.subrange(29, 29 + long.len() as int) =~= long);
    let short = match receiver.short_path {
        Some(path) => text_of(path),
        None => "<none>"@,
    };
    assert(text.skip(50 + long.len() as int) =~= short);
}

/// Every interface of vendor 0x046D is listed, in order, and no other.
pub proof fn law_listed_interfaces(list: Seq<InterfaceView>, more: Seq<InterfaceView>)
    ensures
        interface_texts(list + more) == interface_texts(list) + interface_texts(more),
        more.len() == 1 && more[0].vendor_id == 0x046D ==> interface_texts(more) == seq![
            interface_text(more[0]),
        ],
        more.len() == 1 && more[0].vendor_id != 0x046D ==> interface_texts(more).len() == 0,
        more.len() == 0 ==> interface_texts(more).len() == 0,
    decreases more.len(),
{
    reveal_with_fuel(interface_texts, 2);
    if more.len() == 0 {
        assert(list + more =~= list);
        assert(interface_texts(list) + interface_texts(more) =~= interface_texts(list));
    } else {
        law_listed_interfaces(list, more.drop_last());
        assert((list + more).drop_last() =~= list + more.drop_last());
        assert((list + more).last() == more.last());
        if more.len() == 1 {
            assert(interface_texts(more.drop_last()) =~= Seq::<Seq<char>>::empty());
        }
        assert(interface_texts(list + more) =~= interface_texts(list) + interface_texts(more));
    }
}

/// What is pinged, in order: every interface of vendor 0x046D on usage page 0xFF00, with
/// long reports only those of usage 2, and no other.
pub proof fn law_pinged_interfaces(
    kind: PingKind,
    list: Seq<InterfaceView>,
    more: Seq<InterfaceView>,
)
    ensures
        target_views(kind, list + more) == target_views(kind, list) + target_views(kind, more),
        more.len() == 0 ==> target_views(kind, more).len() == 0,
        more.len() == 1 && more[0].vendor_id == 0x046D && more[0].usage_page == 0xFF00 && (kind
            == PingKind::Short || more[0].usage == 2) ==> target_views(kind, more) == seq![
            (more[0].product_id, more[0].path),
        ],
        more.len() == 1 && !(more[0].vendor_id == 0x046D && more[0].usage_page == 0xFF00 && (kind
            == PingKind::Short || more[0].usage == 2)) ==> target_views(kind, more).len() == 0,
    decreases more.len(),
{
    reveal_with_fuel(target_views, 2);
    if more.len() == 0 {
        assert(list + more =~= list);
        assert(target_views(kind, list) + target_views(kind, more) =~= target_views(kind, list));
    } else {
        law_pinged_interfaces(kind, list, more.drop_last());
        assert((list + more).drop_last() =~= list + more.drop_last());
        assert((list + more).last() == more.last());
        if more.len() == 1 {
            assert(target_views(kind, more.drop_last()) =~= Seq::<(u16, Seq<u8>)>::empty());
        }
        assert(target_views(kind, list + more) =~= target_views(kind, list) + target_views(
            kind,
            more,
        ));
    }
}

/// A report echoes a ping where its seventh byte is the echo, or its eighth where it has
/// exactly eight bytes and does not start with 0x10; no other report does.
pub proof fn law_echo_place(report: Seq<u8>, echo: u8)
    ensures
        report.len() < 7 ==> !echo_matches(report, echo),
        report.len() == 7 || report.len() > 8 ==> (echo_matches(report, echo) <==> report[6]
            == echo),
        report.len() == 8 && report[0] == 0x10 ==> (echo_matches(report, echo) <==> report[6]
            == echo),
        report.len() == 8 && report[0] != 0x10 ==> (echo_matches(report, echo) <==> report[6]
            == echo || report[7] == echo),
{
}

/// The words for the two truth values.
pub proof fn law_truth_words(b: bool)
    ensures
        bool_text(b) == "true"@ <==> b,
        bool_text(b) == "false"@ <==> !b,
{
    reveal_strlit("true");
    reveal_strlit("false");
    assert("true"@.len() != "false"@.len());
}

/// A line about a slot starts with the slot.
pub proof fn law_slot_text_value(slot: u8)
    ensures
        slot_text(slot).take(9) == "   index "@,
        number_of(slot_text(slot).subrange(9, slot_text(slot).len() - 2), 10) == slot,
        slot_text(slot).skip(slot_text(slot).len() - 2) == ": "@,
{
    reveal_strlit("   index ");
    reveal_strlit(": ");
    law_decimal_value(slot as nat);
    let text = slot_text(slot);
    assert(text.take(9) =~= "   index "@);
    assert(text.subrange(9, text.len() - 2) =~= decimal(slot as nat));
    assert(text.skip(text.len() - 2) =~= ": "@);
}

/// What is told of the reply to a ping: the slot, the number of bytes and the bytes
/// themselves; of a short ping also the echo that was asked for and whether it came.
/// Without a reply only the slot and that there was none.
pub proof fn law_reply_text_parts(slot: u8, report: Seq<u8>)
    ensures
        reply_text(PingKind::Short, slot, Seq::empty()) == slot_text(slot)
            + "timeout (no response)"@,
        reply_text(PingKind::Long, slot, Seq::empty()) == slot_text(slot)
            + "timeout (no response)"@,
        report.len() > 0 ==> {
            let long = reply_text(PingKind::Long, slot, report);
            let short = reply_text(PingKind::Short, slot, report);
            let start = slot_text(slot).len() as int;
            let end = start + 2 + decimal(report.len()).len() as int;
            let dump = hex_dump(report);
            let tail = long.len() as int;
            &&& long.take(start) == slot_text(slot)
            &&& long.subrange(start, start + 2) == "n="@
            &&& number_of(long.subrange(start + 2, end), 10) == report.len()
            &&& long.subrange(end + 2, end + 2 + dump.len() as int) == dump
            &&& long.len() == end + 2 + dump.len() + 1
            &&& short.take(tail) == long
            &&& number_of(short.subrange(tail + 7, tail + 9), 16) == 0x55u8 ^ slot
            &&& short.skip(tail + 17) == bool_text(echo_matches(report, 0x55u8 ^ slot))
        },
{
    reveal_strlit("n=");
    reveal_strlit(" [");
    reveal_strlit("]");
    reveal_strlit("  echo(");
    reveal_strlit(") match=");
    if report.len() > 0 {
        let long = reply_text(PingKind::Long, slot, report);
        let short = reply_text(PingKind::Short, slot, report);
        let start = slot_text(slot).len() as int;
        let count = decimal(report.len());
        let end = start + 2 + count.len() as int;
        let dump = hex_dump(report);
        let tail = long.len() as int;
        let echo = ping_echo(slot);
        reveal_with_fuel(vstd::arithmetic::power::pow, 3);
        law_decimal_value(report.len());
        law_hex_digits_value(echo as nat, 2, UPPER);
        assert(long.take(start) =~= slot_text(slot));
        assert(long.subrange(start, start + 2) =~= "n="@);
        assert(long.subrange(start + 2, end) =~= count);
        assert(long.subrange(end + 2, end + 2 + dump.len() as int) =~= dump);
        assert(short.take(tail) =~= long);
        assert(short.subrange(tail + 7, tail + 9) =~= hex_digits(echo as nat, 2, UPPER));
        assert(short.skip(tail + 17) =~= bool_text(echo_matches(report, echo)));
    }
}

/// What is done in each phase of a trial: the reply to a short ping is read into eight
/// bytes for 500 ms, that to a long one into 21 bytes for a second.
pub proof fn law_trial_actions(trial: TrialView)
    ensures
        trial.phase matches PingPhase::Write { slot } ==> trial.action() == (PingAction::Write {
            slot,
        }),
        trial.phase is Read && trial.kind == PingKind::Short ==> trial.action() == (
        PingAction::Read { timeout_ms: 500, size: 8 }),
        trial.phase is Read && trial.kind == PingKind::Long ==> trial.action() == (
        PingAction::Read { timeout_ms: 1000, size: 21 }),
        trial.phase is Done ==> trial.action() == PingAction::Done,
        trial.phase is Open ==> trial.action() is Open,
{
}

/// A target that opens is pinged from slot 1 on; one that does not is passed over, and the
/// line tells why. The trial ends behind the last target.
pub proof fn law_targets_in_turn(trial: TrialView, cause: Seq<char>)
    requires
        trial.phase is Open,
    ensures
        trial.after_open(None).0 == trial.at(PingPhase::Write { slot: 1 }),
        trial.after_open(None).1 == Some("   opened OK"@),
        trial.after_open(Some(cause)).1 == Some("   open failed: "@ + cause),
        trial.target + 1 < trial.targets.len() ==> trial.after_open(Some(cause)).0.target
            == trial.target + 1 && trial.after_open(Some(cause)).0.phase is Open,
        trial.target + 1 >= trial.targets.len() ==> trial.after_open(Some(cause)).0.phase is Done,
        trial.after_open(Some(cause)).0.targets == trial.targets,
{
}

/// A ping that cannot be written or read is told with its cause, under its slot.
pub proof fn law_failed_pings_are_told(trial: TrialView, slot: u8, cause: Seq<char>)
    ensures
        trial.phase == (PingPhase::Write { slot }) ==> trial.after_write(Some(cause)).1 == Some(
            slot_text(slot) + "write failed: "@ + cause,
        ),
        trial.phase == (PingPhase::Write { slot }) ==> trial.after_write(None).0 == trial.at(
            PingPhase::Read { slot },
        ),
        trial.phase == (PingPhase::Read { slot }) ==> trial.after_read_failure(cause).1 == Some(
            slot_text(slot) + "read failed: "@ + cause,
        ),
{
}

/// The heading of a target and that of a probed receiver show the product id, that of a
/// target its path too.
pub proof fn law_headings(trial: TrialView, probe: ProbeView)
    ensures
        trial.heading().take(8) == "\n-- PID "@,
        number_of(trial.heading().subrange(8, 12), 16) == trial.targets[trial.target].0,
        trial.heading().skip(19) == text_of(trial.targets[trial.target].1),
        probe.heading().take(8) == "\n-- PID "@,
        number_of(probe.heading().skip(8), 16) == probe.pids[probe.index],
{
    reveal_strlit("\n-- PID ");
    reveal_strlit("  path=");
    reveal_with_fuel(vstd::arithmetic::power::pow, 5);
    let target = trial.targets[trial.target];
    let pid = probe.pids[probe.index];
    law_hex_digits_value(target.0 as nat, 4, UPPER);
    law_hex_digits_value(pid as nat, 4, UPPER);
    assert(trial.heading().take(8) =~= "\n-- PID "@);
    assert(trial.heading().subrange(8, 12) =~= hex_digits(target.0 as nat, 4, UPPER));
    assert(trial.heading().skip(19) =~= text_of(target.1));
    assert(probe.heading().take(8) =~= "\n-- PID "@);
    assert(probe.heading().skip(8) =~= hex_digits(pid as nat, 4, UPPER));
}

/// The numbers in the words for a report are those of the report.
pub proof fn law_class_text_numbers(a: u8, b: u8)
    ensures
        ({
            let text = class_text(ReportClass::RegisterReply { sub_id: a });
            text.take(24) == "RegisterReply { sub_id: "@ && number_of(
                text.subrange(24, text.len() - 2),
                10,
            ) == a
        }),
        ({
            let text = class_text(ReportClass::Notification { sub_id: a });
            text.take(23) == "Notification { sub_id: "@ && number_of(
                text.subrange(23, text.len() - 2),
                10,
            ) == a
        }),
        ({
            let text = class_text(ReportClass::Connection { device_index: a });
            text.take(27) == "Connection { device_index: "@ && number_of(
                text.subrange(27, text.len() - 2),
                10,
            ) == a
        }),
        ({
            let text = class_text(
                ReportClass::FeatureEvent { device_index: a, feature_index: b },
            );
            let end = 29 + decimal(a as nat).len() as int;
            &&& text.take(29) == "FeatureEvent { device_index: "@
            &&& number_of(text.subrange(29, end), 10) == a
            &&& text.subrange(end, end + 17) == ", feature_index: "@
            &&& number_of(text.subrange(end + 17, text.len() - 2), 10) == b
        }),
{
    reveal_strlit("RegisterReply { sub_id: ");
    reveal_strlit("Notification { sub_id: ");
    reveal_strlit("Connection { device_index: ");
    reveal_strlit("FeatureEvent { device_index: ");
    reveal_strlit(", feature_index: ");
    reveal_strlit(" }");
    law_decimal_value(a as nat);
    law_decimal_value(b as nat);
    let digits = decimal(a as nat);
    let reply = class_text(ReportClass::RegisterReply { sub_id: a });
    assert(reply.take(24) =~= "RegisterReply { sub_id: "@);
    assert(reply.subrange(24, reply.len() - 2) =~= digits);
    let notification = class_text(ReportClass::Notification { sub_id: a });
    assert(notification.take(23) =~= "Notification { sub_id: "@);
    assert(notification.subrange(23, notification.len() - 2) =~= digits);
    let connection = class_text(ReportClass::Connection { device_index: a });
    assert(connection.take(27) =~= "Connection { device_index: "@);
    assert(connection.subrange(27, connection.len() - 2) =~= digits);
    let event = class_text(ReportClass::FeatureEvent { device_index: a, feature_index: b });
    let end = 29 + digits.len() as int;
    assert(event.take(29) =~= "FeatureEvent { device_index: "@);
    assert(event.subrange(29, end) =~= digits);
    assert(event.subrange(end, end + 17) =~= ", feature_index: "@);
    assert(event.subrange(end + 17, event.len() - 2) =~= decimal(b as nat));
}

/// The words for a connection show its slot, its link and its wireless product id.
pub proof fn law_connection_text_parts(conn: ConnectionNotification)
    ensures
        ({
            let text = connection_text(conn);
            let slot = 39 + decimal(conn.device_index as nat).len() as int;
            let link = slot + 20 + bool_text(conn.link_established).len() as int;
            &&& text.take(39) == "ConnectionNotification { device_index: "@
            &&& number_of(text.subrange(39, slot), 10) == conn.device_index
            &&& text.subrange(slot, slot + 20) == ", link_established: "@
            &&& text.subrange(slot + 20, link) == (if conn.link_established {
                "true"@
            } else {
                "false"@
            })
            &&& text.subrange(link, link + 8) == ", wpid: "@
            &&& number_of(text.subrange(link + 8, text.len() - 2), 10) == conn.wpid
        }),
{
    reveal_strlit("ConnectionNotification { device_index: ");
    reveal_strlit(", link_established: ");
    reveal_strlit(", wpid: ");
    reveal_strlit(" }");
    law_decimal_value(conn.device_index as nat);
    law_decimal_value(conn.wpid as nat);
    let text = connection_text(conn);
    let slot = 39 + decimal(conn.device_index as nat).len() as int;
    let link = slot + 20 + bool_text(conn.link_established).len() as int;
    assert(text.take(39) =~= "ConnectionNotification { device_index: "@);
    assert(text.subrange(39, slot) =~= decimal(conn.device_index as nat));
    assert(text.subrange(slot, slot + 20) =~= ", link_established: "@);
    assert(text.subrange(slot + 20, link) =~= bool_text(conn.link_established));
    assert(text.subrange(link, link + 8) =~= ", wpid: "@);
    assert(text.subrange(link + 8, text.len() - 2) =~= decimal(conn.wpid as nat));
}

/// What is told of a report that was heard: the side, the number of bytes, the bytes, and
/// what they mean, at the end. Fewer than seven bytes mean nothing; byte 2 at 0x41 means a
/// connection, which is spelled out.
pub proof fn law_heard_text_parts(side: Side, report: Seq<u8>, at: int)
    ensures
        ({
            let text = heard_text(side, report);
            let start = side_text(side).len() as int;
            let end = start + 2 + decimal(report.len()).len() as int;
            let dump = hex_dump(report);
            &&& text.take(start) == side_text(side)
            &&& text.subrange(start, start + 2) == "n="@
            &&& number_of(text.subrange(start + 2, end), 10) == report.len()
            &&& text.subrange(end + 2, end + 2 + dump.len() as int) == dump
            &&& text.skip(end + 2 + dump.len() as int + 6) == meaning_text(report)
        }),
        report.len() < 7 ==> meaning_text(report) == "<runt>"@,
        header_stands_at(report, at) && report[at + 2] == 0x41 ==> exists|conn|
            #[trigger] meaning_text(report) == class_text(
                ReportClass::Connection { device_index: report[at + 1] },
            ) + "  "@ + #[trigger] connection_text(conn) && conn.device_index == report[at + 1] && (
            conn.link_established <==> report[at + 4] & 0x40 == 0) && conn.wpid == report[at + 5]
                + 256 * report[at + 6],
{
    reveal_strlit("n=");
    reveal_strlit(" [");
    reveal_strlit("]  -> ");
    law_decimal_value(report.len());
    let text = heard_text(side, report);
    let start = side_text(side).len() as int;
    let count = decimal(report.len());
    let end = start + 2 + count.len() as int;
    let dump = hex_dump(report);
    assert(text.take(start) =~= side_text(side));
    assert(text.subrange(start, start + 2) =~= "n="@);
    assert(text.subrange(start + 2, end) =~= count);
    assert(text.subrange(end + 2, end + 2 + dump.len() as int) =~= dump);
    assert(text.skip(end + 2 + dump.len() as int + 6) =~= meaning_text(report));
    law_header_bytes(report, report.len() as int, 0);
    if header_stands_at(report, at) && report[at + 2] == 0x41 {
        law_header_at(report, at);
        let header = header_of(report, report.len() as int)->0;
        assert(header[1] == report[at + 1]);
        assert(header[2] == report[at + 2]);
        assert(header[4] == report[at + 4]);
        assert(header[5] == report[at + 5]);
        assert(header[6] == report[at + 6]);
        law_connection_bits(header);
        law_class_by_bytes(header);
        let conn = connection_of(header)->0;
        assert(meaning_text(report) == class_text(
            ReportClass::Connection { device_index: report[at + 1] },
        ) + "  "@ + connection_text(conn));
    }
}

/// What is told of a step of the probe: the word for its success, or that for its failure
/// with the text of the error in brackets at the end.
pub proof fn law_step_text_parts(
    name: Seq<char>,
    good: Seq<char>,
    bad: Seq<char>,
    err: HidError,
)
    ensures
        ({
            let done = step_text(name, good, bad, Ok(()));
            let failed = step_text(name, good, bad, Err(err));
            let start = 3 + name.len() as int + 2;
            let cause = error_text(err);
            &&& done.subrange(3, 3 + name.len() as int) == name
            &&& done.skip(start) == good
            &&& failed.subrange(3, 3 + name.len() as int) == name
            &&& failed.subrange(start, start + bad.len() as int) == bad
            &&& failed.subrange(
                start + bad.len() as int + 2,
                start + bad.len() as int + 2 + cause.len() as int,
            ) == cause
            &&& failed.last() == ')'
        }),
{
    reveal_strlit("   ");
    reveal_strlit(": ");
    reveal_strlit(" (");
    reveal_strlit(")");
    let done = step_text(name, good, bad, Ok(()));
    let failed = step_text(name, good, bad, Err(err));
    let start = 3 + name.len() as int + 2;
    let cause = error_text(err);
    let inner = start + bad.len() as int + 2;
    assert(done.subrange(3, 3 + name.len() as int) =~= name);
    assert(done.skip(start) =~= good);
    assert(failed.subrange(3, 3 + name.len() as int) =~= name);
    assert(failed.subrange(start, start + bad.len() as int) =~= bad);
    assert(failed.subrange(inner, inner + cause.len() as int) =~= cause);
}

/// The steps of a probe, in order, and what each of them tells; a receiver that cannot be
/// opened is passed over.
pub proof fn law_probe_steps(
    probe: ProbeView,
    done: Result<(), HidError>,
    count: u8,
    err: HidError,
    opened: bool,
)
    ensures
        probe.phase is Open ==> probe.after_open(Ok(())).0 == probe.at(ProbePhase::Enable),
        probe.phase is Open ==> probe.after_open(Err(err)).1 == Some("   "@ + error_text(err)),
        probe.phase is Open && probe.index + 1 < probe.pids.len() ==> probe.after_open(
            Err(err),
        ).0.index == probe.index + 1,
        probe.phase is Open && probe.index + 1 >= probe.pids.len() ==> probe.after_open(
            Err(err),
        ).0.phase is Done,
        probe.phase is Enable ==> probe.after_enable(done) == (
            probe.at(ProbePhase::Count),
            Some(step_text("enable_notifications"@, "OK"@, "FAILED"@, done)),
        ),
        probe.phase is Count ==> probe.after_count(Ok(count)) == (
            probe.at(ProbePhase::Announce),
            Some("   "@ + "connected_count"@ + ": "@ + decimal(count as nat)),
        ),
        probe.phase is Count ==> probe.after_count(Err(err)) == (
            probe.at(ProbePhase::Announce),
            Some(
                "   "@ + "connected_count"@ + ": "@ + "unavailable"@ + " ("@ + error_text(err)
                    + ")"@,
            ),
        ),
        probe.phase is Announce ==> probe.after_announce(done) == (
            probe.at(ProbePhase::OpenLong),
            Some(step_text("poke_announce"@, "sent"@, "FAILED"@, done)),
        ),
        probe.phase is OpenLong ==> probe.after_open_long(opened).0 == probe.at(
            ProbePhase::Listen { side: Side::Short, has_long: opened, left: 39, heard: false },
        ),
{
}

/// While it listens, a probe tells of every report and of every failure at once, and takes
/// the sides in turn, the long one only where it is open. It has heard something from the
/// first report on.
pub proof fn law_every_report_is_told(
    probe: ProbeView,
    side: Side,
    has_long: bool,
    left: usize,
    heard: bool,
    report: Seq<u8>,
    cause: Seq<char>,
)
    requires
        probe.phase == (ProbePhase::Listen { side, has_long, left, heard }),
        left > 0,
    ensures
        ({
            let other = if side == Side::Short && has_long {
                Side::Long
            } else {
                Side::Short
            };
            let (next, lines) = probe.after_report(report);
            let (after, told) = probe.after_read_failure(cause);
            &&& report.len() > 0 ==> lines == seq![heard_text(side, report)]
            &&& report.len() == 0 ==> lines.len() == 0
            &&& next == probe.at(
                ProbePhase::Listen {
                    side: other,
                    has_long,
                    left: (left - 1) as usize,
                    heard: heard || report.len() > 0,
                },
            )
            &&& told == seq![side_text(side) + "read failed: "@ + cause]
            &&& after == probe.at(
                ProbePhase::Listen { side: other, has_long, left: (left - 1) as usize, heard },
            )
            &&& probe.action() == (ProbeAction::Listen { side, timeout_ms: 250 })
        }),
{
}

/// The two sides are told apart.
pub proof fn law_side_words(side: Side)
    ensures
        side_text(side) == "   [short] "@ <==> side == Side::Short,
        side_text(side) == "   [long] "@ <==> side == Side::Long,
{
    reveal_strlit("   [short] ");
    reveal_strlit("   [long] ");
    assert("   [short] "@.len() != "   [long] "@.len());
}

/// The overview: a heading, every listed interface, a second heading, and every receiver
/// or that there is none.
pub proof fn law_overview_parts(list: Seq<InterfaceView>, i: int)
    ensures
        ({
            let lines = overview_lines(list);
            let n = interface_texts(list).len() as int;
            let found = receivers(list);
            &&& lines[0] == "=== All VID 0x046D HID interfaces hidapi sees ==="@
            &&& 0 <= i < n ==> lines[1 + i] == interface_texts(list)[i]
            &&& lines[1 + n] == "\n=== scan_receivers() result ==="@
            &&& found.len() == 0 ==> lines.len() == n + 3 && lines[2 + n]
                == "(none matched VID 0x046D + usage_page 0xFF00)"@
            &&& found.len() > 0 ==> lines.len() == n + 2 + found.len()
            &&& 0 <= i < found.len() ==> lines[2 + n + i] == receiver_text(found[i])
        }),
{
}

/// Exactly the trials and the probe have a title, which says what they use: the report
/// that is sent, and whether an interface or a collection.
pub proof fn law_titles(part: DiagPart, kind: PingKind)
    ensures
        part_title(part) is Some <==> part is Pings || part is Probe,
        part_title(DiagPart::Pings(kind)) == Some(
            if kind == PingKind::Short {
                "\n=== SHORT ping (report 0x10) on each 0xFF00 interface, indices 1..=6 ==="@
            } else {
                "\n=== LONG ping (report 0x11, 20 bytes) on usage=0x0002 interface, indices 1..=6 ==="@
            },
        ),
        no_target_text(kind) == (if kind == PingKind::Short {
            "(no 0xFF00 interface to probe)"@
        } else {
            "(no usage=0x0002 long-report interface found)"@
        }),
{
}

/// A trial starts with the first of its targets and a probe with the first of its
/// receivers, and neither starts without one.
pub proof fn law_trials_start_in_front(
    kind: PingKind,
    list: Seq<InterfaceView>,
    pids: Seq<u16>,
)
    ensures
        TrialView::start(kind, list).kind == kind,
        TrialView::start(kind, list).targets == target_views(kind, list),
        TrialView::start(kind, list).target == 0,
        TrialView::start(kind, list).phase is Open <==> target_views(kind, list).len() > 0,
        TrialView::start(kind, list).phase is Done <==> target_views(kind, list).len() == 0,
        ProbeView::start(pids).pids == pids,
        ProbeView::start(pids).index == 0,
        ProbeView::start(pids).phase is Open <==> pids.len() > 0,
        ProbeView::start(pids).phase is Done <==> pids.len() == 0,
{
}

/// The report that answers the ping of a slot is told under that slot, and the next slot
/// is pinged; behind slot 6 comes the next target.
pub proof fn law_slots_in_turn(trial: TrialView, slot: u8, report: Seq<u8>)
    requires
        trial.phase == (PingPhase::Read { slot }),
    ensures
        trial.after_report(report).1 == Some(reply_text(trial.kind, slot, report)),
        slot < 6 ==> trial.after_report(report).0 == trial.at(
            PingPhase::Write { slot: (slot + 1) as u8 },
        ),
        slot >= 6 && trial.target + 1 < trial.targets.len() ==> trial.after_report(report).0 == (
        TrialView { target: trial.target + 1, phase: PingPhase::Open, ..trial }),
        slot >= 6 && trial.target + 1 >= trial.targets.len() ==> trial.after_report(report).0
            == trial.at(PingPhase::Done),
{
}

} // verus!
