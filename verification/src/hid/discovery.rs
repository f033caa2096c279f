//! Which slots of a receiver hold a connected device.
//!
//! The receiver's connection notifications tell, even of an idle device. A receiver
//! that exposes no short collection, or announces nothing, is swept with pings.

use crate::hid::client::{
    header_stands_at, law_header_at, law_ping_bytes, ping_answered, ping_echo, ping_shows_device,
    ping_slot,
};
use crate::hid::error::HidError;
use crate::hid::exchange::Reply;
use crate::hid::protocol::{
    header_of, law_header_bytes, normalize_report, ping_msg, ShortMsg, PING_RETRIES,
    PING_TIMEOUT_MS,
};
use crate::hid::receiver::{
    connected_count, connection_of, law_connection_bits, parse_connection, ConnectionNotification,
};
use crate::hid::slots::MAX_SLOT;
use vstd::prelude::*;

verus! {

/// How long announcements are listened for.
pub const ANNOUNCE_WINDOW_MS: u64 = 1500;

/// How long one read of an announcement waits.
pub const ANNOUNCE_READ_MS: i32 = 300;

/// Where a discovery stands.
#[derive(Clone, Copy, Debug, PartialEq, Eq, Structural)]
pub enum DiscoveryPhase {
    /// The short collection is opened.
    Open,
    /// The receiver is told to push notifications.
    Enable,
    /// The receiver is asked how many devices it has.
    Count,
    /// The receiver is asked to announce its devices.
    Announce,
    /// The listening window begins.
    Arm,
    /// The listening window is looked at.
    Window,
    /// An announcement is listened for.
    Listen,
    /// A slot is pinged.
    Ping { slot: u8 },
    Done,
}

/// What is to be done next for a discovery.
#[derive(Clone, Copy, Debug, PartialEq, Eq)]
pub enum DiscoveryAction {
    /// Open the short collection.
    OpenNotifier,
    /// Enable the receiver's notifications, as far as it lets them be enabled.
    EnableNotifications,
    /// Ask the receiver for the number of its connected devices.
    AskConnectedCount,
    /// Ask the receiver to announce its devices, as far as it can be asked.
    PokeAnnounce,
    /// Let a window of this length begin.
    ArmWindow { ms: u64 },
    /// Tell whether the window is over.
    CheckWindow,
    /// Read one report on the short interface, for at most `timeout_ms`.
    Listen { timeout_ms: i32 },
    /// Send a request on the long interface and get its reply.
    Ask { msg: ShortMsg, timeout_ms: i32, retries: usize },
    /// Nothing: the slots are found.
    Done,
}

/// The search for the devices of a receiver.
#[derive(Debug)]
pub struct Discovery {
    /// How many devices the receiver says it has; 0 where it does not say.
    pub expected: u8,
    /// The slots found so far, with the wireless product id (0 where not known).
    pub slots: Vec<(u8, u16)>,
    pub phase: DiscoveryPhase,
}

/// A discovery as plain values.
#[verifier::ext_equal]
pub struct DiscoveryView {
    pub expected: u8,
    pub slots: Seq<(u8, u16)>,
    pub phase: DiscoveryPhase,
}

impl View for Discovery {
    type V = DiscoveryView;

    open spec fn view(&self) -> DiscoveryView {
        DiscoveryView { expected: self.expected, slots: self.slots@, phase: self.phase }
    }
}

/// The slot is among those found.
pub open spec fn has_slot(slots: Seq<(u8, u16)>, slot: u8) -> bool {
    exists|i: int| 0 <= i < slots.len() && #[trigger] slots[i].0 == slot
}

/// No slot was found twice.
pub open spec fn distinct_slots(slots: Seq<(u8, u16)>) -> bool {
    forall|i: int, j: int|
        0 <= i < j < slots.len() ==> #[trigger] slots[i].0 != #[trigger] slots[j].0
}

/// `slots` with the device of a notification, unless its link is down or its slot was
/// found before.
pub open spec fn with_announced(slots: Seq<(u8, u16)>, report: Seq<u8>) -> Seq<(u8, u16)> {
    match header_of(report, report.len() as int) {
        Some(header) => match connection_of(header) {
            Some(conn) => if conn.link_established && !has_slot(slots, conn.device_index) {
                slots.push((conn.device_index, conn.wpid))
            } else {
                slots
            },
            None => slots,
        },
        None => slots,
    }
}

impl DiscoveryView {
    /// Before anything was done.
    pub open spec fn start() -> DiscoveryView {
        DiscoveryView { expected: 0, slots: Seq::empty(), phase: DiscoveryPhase::Open }
    }

    /// This discovery in another phase.
    pub open spec fn at(self, phase: DiscoveryPhase) -> DiscoveryView {
        DiscoveryView { phase, ..self }
    }

    /// No slot is found twice, and a sweep has found only slots that it has passed.
    pub open spec fn wf(self) -> bool {
        &&& distinct_slots(self.slots)
        &&& match self.phase {
            DiscoveryPhase::Open => self.slots.len() == 0,
            DiscoveryPhase::Ping { slot } => 1 <= slot <= MAX_SLOT && forall|i: int|
                0 <= i < self.slots.len() ==> (#[trigger] self.slots[i]).0 < slot,
            _ => true,
        }
    }

    /// The next action.
    pub open spec fn action(self) -> DiscoveryAction {
        match self.phase {
            DiscoveryPhase::Open => DiscoveryAction::OpenNotifier,
            DiscoveryPhase::Enable => DiscoveryAction::EnableNotifications,
            DiscoveryPhase::Count => DiscoveryAction::AskConnectedCount,
            DiscoveryPhase::Announce => DiscoveryAction::PokeAnnounce,
            DiscoveryPhase::Arm => DiscoveryAction::ArmWindow { ms: ANNOUNCE_WINDOW_MS },
            DiscoveryPhase::Window => DiscoveryAction::CheckWindow,
            DiscoveryPhase::Listen => DiscoveryAction::Listen { timeout_ms: ANNOUNCE_READ_MS },
            DiscoveryPhase::Ping { slot } => DiscoveryAction::Ask {
                msg: ping_msg(slot, ping_echo(slot)),
                timeout_ms: PING_TIMEOUT_MS,
                retries: PING_RETRIES,
            },
            DiscoveryPhase::Done => DiscoveryAction::Done,
        }
    }

    /// Listening is over: the slots that were announced are the result. Where none
    /// was, the slots are pinged.
    pub open spec fn listened(self) -> DiscoveryView {
        if self.slots.len() > 0 {
            self.at(DiscoveryPhase::Done)
        } else {
            self.at(DiscoveryPhase::Ping { slot: 1 })
        }
    }

    /// After the short collection was opened, or could not be.
    pub open spec fn after_open(self, ok: bool) -> DiscoveryView {
        if !(self.phase is Open) {
            self
        } else if ok {
            self.at(DiscoveryPhase::Enable)
        } else {
            self.at(DiscoveryPhase::Ping { slot: 1 })
        }
    }

    /// After a step whose outcome does not matter.
    pub open spec fn after_step(self) -> DiscoveryView {
        match self.phase {
            DiscoveryPhase::Enable => self.at(DiscoveryPhase::Count),
            DiscoveryPhase::Announce => self.at(DiscoveryPhase::Arm),
            DiscoveryPhase::Arm => self.at(DiscoveryPhase::Window),
            _ => self,
        }
    }

    /// After a look at the window.
    pub open spec fn after_window(self, over: bool) -> DiscoveryView {
        if !(self.phase is Window) {
            self
        } else if over {
            self.listened()
        } else {
            self.at(DiscoveryPhase::Listen)
        }
    }

    /// After listening gave `report`, which is empty where nothing came. Listening ends
    /// as soon as all devices that the receiver has were announced.
    pub open spec fn after_heard(self, report: Seq<u8>) -> DiscoveryView {
        if !(self.phase is Listen) {
            self
        } else {
            let heard = DiscoveryView { slots: with_announced(self.slots, report), ..self };
            if self.expected > 0 && heard.slots.len() >= self.expected {
                heard.listened()
            } else {
                heard.at(DiscoveryPhase::Window)
            }
        }
    }

    /// After the reply to a request: the number of devices, or the echo of a ping.
    pub open spec fn after_reply(self, reply: Reply) -> DiscoveryView {
        match self.phase {
            DiscoveryPhase::Count => DiscoveryView {
                expected: match reply {
                    Ok(header) => header[5],
                    Err(_) => 0,
                },
                phase: DiscoveryPhase::Announce,
                ..self
            },
            DiscoveryPhase::Ping { slot } => DiscoveryView {
                slots: if ping_answered(slot, reply) {
                    self.slots.push((slot, 0))
                } else {
                    self.slots
                },
                phase: if slot < MAX_SLOT {
                    DiscoveryPhase::Ping { slot: (slot + 1) as u8 }
                } else {
                    DiscoveryPhase::Done
                },
                ..self
            },
            _ => self,
        }
    }
}

fn contains_slot(slots: &Vec<(u8, u16)>, slot: u8) -> (found: bool)
    ensures
        found == has_slot(slots@, slot),
{
    let mut i: usize = 0;
    while i < slots.len()
        invariant
            i <= slots@.len(),
            forall|j: int| 0 <= j < i ==> (#[trigger] slots@[j]).0 != slot,
        decreases slots@.len() - i,
    {
        if slots[i].0 == slot {
            assert(slots@[i as int].0 == slot);
            return true;
        }
        i += 1;
    }
    false
}

impl Discovery {
    /// Start looking for the devices of a receiver.
    pub fn start() -> (discovery: Discovery)
        ensures
            discovery@ == DiscoveryView::start(),
            discovery@.wf(),
    {
        Discovery { expected: 0, slots: Vec::new(), phase: DiscoveryPhase::Open }
    }

    /// What is to be done next.
    pub fn action(&self) -> (action: DiscoveryAction)
        ensures
            action == self@.action(),
    {
        match self.phase {
            DiscoveryPhase::Open => DiscoveryAction::OpenNotifier,
            DiscoveryPhase::Enable => DiscoveryAction::EnableNotifications,
            DiscoveryPhase::Count => DiscoveryAction::AskConnectedCount,
            DiscoveryPhase::Announce => DiscoveryAction::PokeAnnounce,
            DiscoveryPhase::Arm => DiscoveryAction::ArmWindow { ms: ANNOUNCE_WINDOW_MS },
            DiscoveryPhase::Window => DiscoveryAction::CheckWindow,
            DiscoveryPhase::Listen => DiscoveryAction::Listen { timeout_ms: ANNOUNCE_READ_MS },
            DiscoveryPhase::Ping { slot } => DiscoveryAction::Ask {
                msg: ping_slot(slot),
                timeout_ms: PING_TIMEOUT_MS,
                retries: PING_RETRIES,
            },
            DiscoveryPhase::Done => DiscoveryAction::Done,
        }
    }

    fn listened(&mut self)
        ensures
            final(self)@ == old(self)@.listened(),
    {
        self.phase =
        if self.slots.len() > 0 {
            DiscoveryPhase::Done
        } else {
            DiscoveryPhase::Ping { slot: 1 }
        };
    }

    /// The short collection was opened (`ok`), or could not be.
    pub fn on_open(&mut self, ok: bool)
        ensures
            final(self)@ == old(self)@.after_open(ok),
            old(self)@.wf() ==> final(self)@.wf(),
    {
        if let DiscoveryPhase::Open = self.phase {
            self.phase =
            if ok {
                DiscoveryPhase::Enable
            } else {
                DiscoveryPhase::Ping { slot: 1 }
            };
        }
    }

    /// A step whose outcome does not matter was done.
    pub fn on_step(&mut self)
        ensures
            final(self)@ == old(self)@.after_step(),
            old(self)@.wf() ==> final(self)@.wf(),
    {
        match self.phase {
            DiscoveryPhase::Enable => {
                self.phase = DiscoveryPhase::Count;
            },
            DiscoveryPhase::Announce => {
                self.phase = DiscoveryPhase::Arm;
            },
            DiscoveryPhase::Arm => {
                self.phase = DiscoveryPhase::Window;
            },
            _ => {},
        }
    }

    /// The window was looked at.
    pub fn on_window(&mut self, over: bool)
        ensures
            final(self)@ == old(self)@.after_window(over),
            old(self)@.wf() ==> final(self)@.wf(),
    {
        if let DiscoveryPhase::Window = self.phase {
            if over {
                self.listened();
            } else {
                self.phase = DiscoveryPhase::Listen;
            }
        }
    }

    /// `report` came on the short interface, or nothing (it is empty).
    pub fn on_heard(&mut self, report: &[u8])
        ensures
            final(self)@ == old(self)@.after_heard(report@),
            old(self)@.wf() ==> final(self)@.wf(),
    {
        if let DiscoveryPhase::Listen = self.phase {
            if let Some(header) = normalize_report(report, report.len()) {
                if let Some(conn) = parse_connection(&header) {
                    if conn.link_established && !contains_slot(&self.slots, conn.device_index) {
                        self.slots.push((conn.device_index, conn.wpid));
                    }
                }
            }
            if self.expected > 0 && self.slots.len() >= self.expected as usize {
                self.listened();
            } else {
                self.phase = DiscoveryPhase::Window;
            }
        }
    }

    /// The reply to the request that was due has come, or the request failed.
    pub fn on_reply(&mut self, reply: Reply)
        ensures
            final(self)@ == old(self)@.after_reply(reply),
            old(self)@.wf() ==> final(self)@.wf(),
    {
        match self.phase {
            DiscoveryPhase::Count => {
                self.expected =
                match reply {
                    Ok(header) => connected_count(&header),
                    Err(_) => 0,
                };
                self.phase = DiscoveryPhase::Announce;
            },
            DiscoveryPhase::Ping { slot } => {
                if ping_shows_device(slot, &reply) {
                    self.slots.push((slot, 0));
                }
                self.phase =
                if slot < MAX_SLOT {
                    DiscoveryPhase::Ping { slot: slot + 1 }
                } else {
                    DiscoveryPhase::Done
                };
            },
            _ => {},
        }
    }
}

/// The slots that a sweep finds: those whose ping is answered.
pub open spec fn answering_slots(replies: Seq<Reply>) -> Seq<(u8, u16)>
    decreases replies.len(),
{
    if replies.len() == 0 {
        Seq::empty()
    } else {
        let before = answering_slots(replies.drop_last());
        if ping_answered(replies.len() as u8, replies.last()) {
            before.push((replies.len() as u8, 0u16))
        } else {
            before
        }
    }
}

impl DiscoveryView {
    /// The discovery after a series of replies.
    pub open spec fn after_replies(self, replies: Seq<Reply>) -> DiscoveryView
        decreases replies.len(),
    {
        if replies.len() == 0 {
            self
        } else {
            self.after_replies(replies.drop_last()).after_reply(replies.last())
        }
    }

    /// The discovery after a series of reports, where the window stays open.
    pub open spec fn after_reports(self, reports: Seq<Seq<u8>>) -> DiscoveryView
        decreases reports.len(),
    {
        if reports.len() == 0 {
            self
        } else {
            self.after_reports(reports.drop_last()).after_window(false).after_heard(reports.last())
        }
    }
}

/// The slots that a series of reports announces.
pub open spec fn announced_slots(reports: Seq<Seq<u8>>) -> Seq<(u8, u16)>
    decreases reports.len(),
{
    if reports.len() == 0 {
        Seq::empty()
    } else {
        with_announced(announced_slots(reports.drop_last()), reports.last())
    }
}

/// Without a short collection every slot is pinged once, in order, and the result is
/// the slots that answered.
pub proof fn law_sweep_finds_answering_slots(start: DiscoveryView, replies: Seq<Reply>)
    requires
        start.phase == (DiscoveryPhase::Ping { slot: 1 }),
        start.slots.len() == 0,
        replies.len() <= MAX_SLOT,
    ensures
        start.after_replies(replies) == (DiscoveryView {
            expected: start.expected,
            slots: answering_slots(replies),
            phase: if replies.len() < MAX_SLOT {
                DiscoveryPhase::Ping { slot: (replies.len() + 1) as u8 }
            } else {
                DiscoveryPhase::Done
            },
        }),
    decreases replies.len(),
{
    if replies.len() > 0 {
        law_sweep_finds_answering_slots(start, replies.drop_last());
    } else {
        assert(start.slots =~= Seq::<(u8, u16)>::empty());
    }
}

/// While fewer devices were announced than the receiver has, or it does not say how
/// many it has, listening goes on and collects the announced slots.
pub proof fn law_listening_collects_announcements(start: DiscoveryView, reports: Seq<Seq<u8>>)
    requires
        start.phase is Window,
        start.slots.len() == 0,
        start.expected == 0 || forall|k: int|
            0 <= k <= reports.len() ==> (#[trigger] announced_slots(reports.take(k))).len()
                < start.expected,
    ensures
        start.after_reports(reports) == (DiscoveryView {
            expected: start.expected,
            slots: announced_slots(reports),
            phase: DiscoveryPhase::Window,
        }),
    decreases reports.len(),
{
    if reports.len() > 0 {
        let before = reports.drop_last();
        if start.expected != 0 {
            assert forall|k: int| 0 <= k <= before.len() implies (#[trigger] announced_slots(
                before.take(k),
            )).len() < start.expected by {
                assert(before.take(k) =~= reports.take(k));
            }
            assert(reports.take(reports.len() as int) =~= reports);
        }
        law_listening_collects_announcements(start, before);
    } else {
        assert(start.slots =~= Seq::<(u8, u16)>::empty());
    }
}

/// A receiver that does not tell how many devices it has, and announces none while the
/// window is open, is swept with pings like one without a short collection.
pub proof fn law_silent_receiver_is_swept(err: HidError, reports: Seq<Seq<u8>>)
    requires
        announced_slots(reports).len() == 0,
    ensures
        ({
            let listening = DiscoveryView::start().after_open(true).after_step().after_reply(
                Err(err),
            ).after_step().after_step();
            let swept = DiscoveryView::start().after_open(false);
            &&& listening.phase is Window
            &&& listening.after_reports(reports).after_window(true) == swept
            &&& swept.phase == (DiscoveryPhase::Ping { slot: 1 })
        }),
{
    let listening = DiscoveryView::start().after_open(true).after_step().after_reply(
        Err(err),
    ).after_step().after_step();
    law_listening_collects_announcements(listening, reports);
    assert(announced_slots(reports) =~= Seq::<(u8, u16)>::empty());
}

/// No slot is found twice, and only the slots of devices whose link is up are found by
/// listening.
pub proof fn law_announced_slots_distinct(reports: Seq<Seq<u8>>)
    ensures
        distinct_slots(announced_slots(reports)),
        forall|i: int|
            0 <= i < announced_slots(reports).len() ==> was_announced(
                reports,
                #[trigger] announced_slots(reports)[i],
            ),
    decreases reports.len(),
{
    if reports.len() > 0 {
        let before = reports.drop_last();
        law_announced_slots_distinct(before);
        let found = announced_slots(before);
        let slots = announced_slots(reports);
        assert forall|i: int| 0 <= i < slots.len() implies was_announced(
            reports,
            #[trigger] slots[i],
        ) by {
            if i < found.len() {
                assert(slots[i] == found[i]);
                let k = choose|k: int|
                    0 <= k < before.len() && announces(#[trigger] before[k], found[i]);
                assert(reports[k] == before[k]);
                assert(announces(reports[k], slots[i]));
            } else {
                assert(announces(reports[reports.len() - 1], slots[i]));
            }
        }
    }
}

/// The report announces that the device at the slot is linked.
pub open spec fn announces(report: Seq<u8>, found: (u8, u16)) -> bool {
    header_of(report, report.len() as int) matches Some(header) && connection_of(header) == Some(
        ConnectionNotification { device_index: found.0, link_established: true, wpid: found.1 },
    )
}

/// One of the reports announces that the device at the slot is linked.
pub open spec fn was_announced(reports: Seq<Seq<u8>>, found: (u8, u16)) -> bool {
    exists|k: int| 0 <= k < reports.len() && announces(#[trigger] reports[k], found)
}

/// What the bytes of an announcement add: where byte 2 is 0x41, bit 6 of byte 4 is clear
/// and the slot in byte 1 was not found yet, that slot is added behind the others, with
/// the wireless product id in bytes 5 and 6, low byte first. No other report adds anything.
pub proof fn law_announcement_bytes(slots: Seq<(u8, u16)>, report: Seq<u8>, at: int, wpid: u16)
    requires
        header_stands_at(report, at),
        wpid == report[at + 5] + 256 * report[at + 6],
    ensures
        ({
            let fresh = forall|i: int|
                0 <= i < slots.len() ==> (#[trigger] slots[i]).0 != report[at + 1];
            let linked = report[at + 2] == 0x41 && report[at + 4] & 0x40 == 0;
            &&& linked && fresh ==> with_announced(slots, report) == slots.push(
                (report[at + 1], wpid),
            )
            &&& !linked || !fresh ==> with_announced(slots, report) == slots
        }),
{
    law_header_at(report, at);
    let header = header_of(report, report.len() as int)->0;
    assert(header[1] == report[at + 1]);
    assert(header[2] == report[at + 2]);
    assert(header[4] == report[at + 4]);
    assert(header[5] == report[at + 5]);
    assert(header[6] == report[at + 6]);
    law_connection_bits(header);
}

/// A report of fewer than seven bytes announces nothing.
pub proof fn law_short_report_announces_nothing(slots: Seq<(u8, u16)>, report: Seq<u8>)
    requires
        report.len() < 7,
    ensures
        with_announced(slots, report) == slots,
{
    law_header_bytes(report, report.len() as int, 0);
}

/// What is done in each phase: the window is 1.5 s long, a report is listened for 300 ms,
/// and a ping waits 300 ms and is tried twice.
pub proof fn law_discovery_actions(view: DiscoveryView)
    ensures
        view.phase is Open ==> view.action() == DiscoveryAction::OpenNotifier,
        view.phase is Enable ==> view.action() == DiscoveryAction::EnableNotifications,
        view.phase is Count ==> view.action() == DiscoveryAction::AskConnectedCount,
        view.phase is Announce ==> view.action() == DiscoveryAction::PokeAnnounce,
        view.phase is Arm ==> view.action() == (DiscoveryAction::ArmWindow { ms: 1500 }),
        view.phase is Window ==> view.action() == DiscoveryAction::CheckWindow,
        view.phase is Listen ==> view.action() == (DiscoveryAction::Listen { timeout_ms: 300 }),
        view.phase matches DiscoveryPhase::Ping { slot } ==> view.action() == (
        DiscoveryAction::Ask { msg: ping_msg(slot, 0x55u8 ^ slot), timeout_ms: 300, retries: 2 }),
        view.phase is Done ==> view.action() == DiscoveryAction::Done,
{
}

/// The order of the steps up to the listening: notifications, the number of devices, the
/// request for announcements, the window. Without a short collection the slots are pinged.
pub proof fn law_discovery_steps(view: DiscoveryView, reply: Reply)
    ensures
        view.phase is Open ==> view.after_open(true) == view.at(DiscoveryPhase::Enable),
        view.phase is Open ==> view.after_open(false) == view.at(DiscoveryPhase::Ping { slot: 1 }),
        view.phase is Enable ==> view.after_step() == view.at(DiscoveryPhase::Count),
        view.phase is Count ==> view.after_reply(reply).phase is Announce,
        view.phase is Count ==> view.after_reply(reply).slots == view.slots,
        view.phase is Announce ==> view.after_step() == view.at(DiscoveryPhase::Arm),
        view.phase is Arm ==> view.after_step() == view.at(DiscoveryPhase::Window),
        view.phase is Window ==> view.after_window(false) == view.at(DiscoveryPhase::Listen),
        view.phase is Window && view.slots.len() > 0 ==> view.after_window(true) == view.at(
            DiscoveryPhase::Done,
        ),
        view.phase is Window && view.slots.len() == 0 ==> view.after_window(true) == view.at(
            DiscoveryPhase::Ping { slot: 1 },
        ),
{
}

/// The number of devices is byte 5 of the reply, and not known without one. The listening
/// ends with the announcement that completes it, and goes on before that; where the number
/// is not known, only the window ends it.
pub proof fn law_listening_ends_when_complete(
    view: DiscoveryView,
    header: [u8; 7],
    err: HidError,
    report: Seq<u8>,
)
    ensures
        view.phase is Count ==> view.after_reply(Ok(header)).expected == header[5],
        view.phase is Count ==> view.after_reply(Err(err)).expected == 0,
        ({
            let found = with_announced(view.slots, report);
            let complete = view.expected > 0 && found.len() >= view.expected;
            view.phase is Listen ==> view.after_heard(report) == (DiscoveryView {
                expected: view.expected,
                slots: found,
                phase: if complete {
                    DiscoveryPhase::Done
                } else {
                    DiscoveryPhase::Window
                },
            })
        }),
{
}

/// A slot is found by a ping exactly where the last byte of the reply is the slot with the
/// bits of 0x55 flipped; the slots are pinged in turn up to 6, found or not.
pub proof fn law_pinged_slot(view: DiscoveryView, slot: u8, header: [u8; 7], err: HidError)
    requires
        view.phase == (DiscoveryPhase::Ping { slot }),
    ensures
        ({
            let answered = view.after_reply(Ok(header));
            let silent = view.after_reply(Err(err));
            let next = if slot < 6 {
                DiscoveryPhase::Ping { slot: (slot + 1) as u8 }
            } else {
                DiscoveryPhase::Done
            };
            &&& header[6] ^ slot == 0x55 ==> answered.slots == view.slots.push((slot, 0u16))
            &&& header[6] ^ slot != 0x55 ==> answered.slots == view.slots
            &&& silent.slots == view.slots
            &&& answered.phase == next
            &&& silent.phase == next
            &&& answered.expected == view.expected
        }),
{
    law_ping_bytes(slot, header, err);
}

/// A discovery starts with the short collection, with nothing found and nothing expected.
pub proof fn law_discovery_starts_empty(ok: bool)
    ensures
        DiscoveryView::start().phase is Open,
        DiscoveryView::start().slots.len() == 0,
        DiscoveryView::start().expected == 0,
        DiscoveryView::start().after_open(ok).slots.len() == 0,
        DiscoveryView::start().after_open(ok).phase == if ok {
            DiscoveryPhase::Enable
        } else {
            DiscoveryPhase::Ping { slot: 1 }
        },
{
}

} // verus!
