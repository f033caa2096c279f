//! The receiver worker.
//!
//! Each receiver has one worker that owns both of its vendor collections: the short
//! interface (HID++ 1.0: receiver registers and the device-connection notification)
//! and the long interface (HID++ 2.0: battery data). The worker waits on the short
//! interface; when a device links up it reads that device's battery on the long
//! interface and emits an update. A relaxed safety timer re-reads batteries and
//! asserts the notifications again.
//!
//! A receiver without a short collection pushes no notifications, and one that does not
//! acknowledge their setup may push none: its worker finds devices with a bounded ping
//! sweep, and re-reads them when the safety timer is due.

use crate::config::{load_device_profiles, DeviceProfiles};
use crate::hid::battery::{battery_msg, battery_reading, supported_battery};
use crate::hid::device::{
    cache_key, device_key, device_key_text, law_device_key_injective, law_started_read_is_wf,
    law_state_names_its_device, memory, DeviceRead, FeatureCache, Memory, ReadPhase,
    ReadPhaseView, ReadView,
};
use crate::hid::error::HidError;
use crate::hid::exchange::Reply;
use crate::hid::protocol::{
    class_of, classify, header_of, law_class_by_bytes, law_header_bytes, normalize_report, ping,
    ping_msg, ReportClass, ShortMsg, MAX_RETRIES, PING_RETRIES, PING_TIMEOUT_MS, READ_TIMEOUT_MS,
};
use crate::hid::receiver::{
    connection_of, law_connection_bits, parse_connection, ConnectionNotification,
};
use crate::hid::slots::{valid_slot, valid_slots, SlotSet, MAX_SLOT};
use crate::model::{BatteryState, BatteryView};
use vstd::prelude::*;

verus! {

/// How long the worker waits on the short interface before it looks at its commands
/// and its safety timer. Bounds the latency of commands; no USB traffic happens
/// during the wait.
pub const SHORT_WAIT_MS: i32 = 1000;

/// Floor for the safety re-read interval. Battery changes slowly, so to re-read more
/// often than this wastes USB round-trips.
pub const MIN_SAFETY_SECS: u64 = 15;

/// An update for the tray.
#[derive(Clone, Debug)]
pub enum DeviceEvent {
    /// A device arrived or its battery was read.
    Update(BatteryState),
    /// A device's link dropped, or its receiver went away; its device key.
    Gone(String),
}

/// An update as plain values.
pub enum EventView {
    Update(BatteryView),
    Gone(Seq<char>),
}

impl View for DeviceEvent {
    type V = EventView;

    open spec fn view(&self) -> EventView {
        match *self {
            DeviceEvent::Update(state) => EventView::Update(state@),
            DeviceEvent::Gone(key) => EventView::Gone(key@),
        }
    }
}

/// An update that may be there, as plain values.
pub open spec fn event_view(event: Option<DeviceEvent>) -> Option<EventView> {
    match event {
        Some(event) => Some(event@),
        None => None,
    }
}

/// Commands the tray sends to a receiver worker.
#[derive(Clone, Copy, Debug, PartialEq, Eq, Structural)]
pub enum WorkerCommand {
    /// Announce and re-read all known devices now (manual refresh).
    Refresh,
    /// Change the safety re-read interval (seconds).
    SetSafetyInterval(u64),
    /// Stop the worker.
    Exit,
}

/// What the worker finds in its command queue.
#[derive(Clone, Copy, Debug, PartialEq, Eq, Structural)]
pub enum Polled {
    Command(WorkerCommand),
    Empty,
    /// The tray is gone.
    Disconnected,
}

/// What a round of discovery belongs to.
#[derive(Clone, Copy, Debug, PartialEq, Eq, Structural)]
pub enum Round {
    /// The first round of the worker.
    Start,
    /// A refresh command.
    Refresh,
    /// The safety timer.
    Safety,
}

/// Why a device is read.
#[derive(Clone, Copy, Debug, PartialEq, Eq, Structural)]
pub enum Reason {
    /// Its link came up.
    Connection,
    /// It pushed an event.
    Event,
    /// It answered a ping of a discovery round.
    Discovery(Round),
    /// Its turn came among the known devices.
    Reread(Round),
}

/// Why a worker stopped.
#[derive(Clone, Copy, Debug, PartialEq, Eq, Structural)]
pub enum StopReason {
    /// It was told to, or nobody is left to tell it anything.
    Exit,
    /// The short interface could not be read.
    NotifierLost,
}

/// Where a worker stands.
#[derive(Debug)]
pub enum WorkerPhase {
    /// The receiver is told to push notifications.
    Enable(Round),
    /// The receiver is asked to announce its devices.
    Announce(Round),
    /// A slot is pinged.
    Ping { round: Round, slot: u8 },
    /// A device is read.
    Read { reason: Reason, read: DeviceRead },
    /// The safety timer is started over.
    Restart,
    /// The worker waits for a connection notification.
    Wait,
    /// Events pending on the long interface are taken in.
    Drain,
    /// Commands are taken in.
    Command,
    /// The safety timer is looked at.
    Timer,
    Stopped(StopReason),
}

/// The phase of a worker as plain values.
#[verifier::ext_equal]
pub enum WorkerPhaseView {
    Enable(Round),
    Announce(Round),
    Ping { round: Round, slot: u8 },
    Read { reason: Reason, read: ReadView },
    Restart,
    Wait,
    Drain,
    Command,
    Timer,
    Stopped(StopReason),
}

impl View for WorkerPhase {
    type V = WorkerPhaseView;

    open spec fn view(&self) -> WorkerPhaseView {
        match *self {
            WorkerPhase::Enable(round) => WorkerPhaseView::Enable(round),
            WorkerPhase::Announce(round) => WorkerPhaseView::Announce(round),
            WorkerPhase::Ping { round, slot } => WorkerPhaseView::Ping { round, slot },
            WorkerPhase::Read { reason, read } => WorkerPhaseView::Read { reason, read: read@ },
            WorkerPhase::Restart => WorkerPhaseView::Restart,
            WorkerPhase::Wait => WorkerPhaseView::Wait,
            WorkerPhase::Drain => WorkerPhaseView::Drain,
            WorkerPhase::Command => WorkerPhaseView::Command,
            WorkerPhase::Timer => WorkerPhaseView::Timer,
            WorkerPhase::Stopped(reason) => WorkerPhaseView::Stopped(reason),
        }
    }
}

/// What is to be done next for a worker.
#[derive(Clone, Copy, Debug, PartialEq, Eq)]
pub enum WorkerAction {
    /// Enable the receiver's notifications, as far as it lets them be enabled.
    EnableNotifications,
    /// Ask the receiver to announce its devices, as far as it can be asked.
    PokeAnnounce,
    /// Wait `pause_ms`, then send a request on the long interface and get its reply.
    Ask { msg: ShortMsg, timeout_ms: i32, retries: usize, pause_ms: u64 },
    /// Read one report on the short interface, for at most `timeout_ms`.
    WaitShort { timeout_ms: i32 },
    /// Do nothing for `ms`.
    Idle { ms: i32 },
    /// Read one report on the long interface, without waiting.
    PollLong,
    /// Take the next command from the queue, without waiting.
    NextCommand,
    /// Tell how long the safety timer has been running.
    CheckTimer,
    /// Start the safety timer over.
    RestartTimer,
    /// Nothing: the worker has stopped.
    Stop(StopReason),
}

/// The worker of one receiver.
#[derive(Debug)]
pub struct Worker {
    /// The product id of the receiver.
    pub pid: u16,
    /// Whether the receiver has a short collection.
    pub has_short: bool,
    /// Whether the receiver acknowledged the last setup of its notifications.
    pub acknowledged: bool,
    /// The safety re-read interval in seconds.
    pub safety_secs: u64,
    /// The slots of the devices that are present.
    pub known: SlotSet,
    pub cache: FeatureCache,
    pub profiles: DeviceProfiles,
    pub phase: WorkerPhase,
}

/// A worker as plain values.
#[verifier::ext_equal]
pub struct WorkerView {
    pub pid: u16,
    pub has_short: bool,
    pub acknowledged: bool,
    pub safety_secs: u64,
    pub known: Set<u8>,
    pub mem: Memory,
    pub phase: WorkerPhaseView,
}

impl View for Worker {
    type V = WorkerView;

    open spec fn view(&self) -> WorkerView {
        WorkerView {
            pid: self.pid,
            has_short: self.has_short,
            acknowledged: self.acknowledged,
            safety_secs: self.safety_secs,
            known: self.known@,
            mem: memory(self.cache, self.profiles),
            phase: self.phase@,
        }
    }
}

/// The byte that a ping of `slot` asks to have echoed.
pub open spec fn ping_echo(slot: u8) -> u8 {
    0x55u8 ^ slot
}

/// The reply to a ping of `slot` that shows a device there.
pub open spec fn ping_answered(slot: u8, reply: Reply) -> bool {
    reply matches Ok(header) && header[6] == ping_echo(slot)
}

/// The interval that is used where `secs` is asked for.
pub open spec fn safety_interval(secs: u64) -> u64 {
    if secs < MIN_SAFETY_SECS {
        MIN_SAFETY_SECS
    } else {
        secs
    }
}

impl WorkerView {
    /// This worker in another phase.
    pub open spec fn at(self, phase: WorkerPhaseView) -> WorkerView {
        WorkerView { phase, ..self }
    }

    /// The receiver cannot be relied on to announce its devices: it has no short
    /// collection, or did not acknowledge the last setup of its notifications.
    pub open spec fn mute(self) -> bool {
        !self.has_short || !self.acknowledged
    }

    /// Slots are slots, the safety interval is not below its floor, a device that is
    /// read again is known, and only a worker whose receiver is mute pings.
    pub open spec fn wf(self) -> bool {
        &&& valid_slots(self.known)
        &&& self.safety_secs >= MIN_SAFETY_SECS
        &&& match self.phase {
            WorkerPhaseView::Enable(round) => self.has_short && round != Round::Refresh,
            WorkerPhaseView::Announce(_) => self.has_short,
            WorkerPhaseView::Ping { slot, .. } => self.mute() && valid_slot(slot),
            WorkerPhaseView::Read { reason, read } => {
                &&& read.wf()
                &&& !read.over()
                &&& read.pid == self.pid
                &&& valid_slot(read.slot)
                &&& match reason {
                    Reason::Connection => self.has_short,
                    Reason::Event => self.known.contains(read.slot) && read.wpid == 0,
                    Reason::Discovery(_) => self.mute() && read.wpid == 0,
                    Reason::Reread(round) => self.known.contains(read.slot) && read.wpid == 0
                        && round != Round::Start,
                }
            },
            _ => true,
        }
    }

    /// The next action.
    pub open spec fn action(self) -> WorkerAction {
        match self.phase {
            WorkerPhaseView::Enable(_) => WorkerAction::EnableNotifications,
            WorkerPhaseView::Announce(_) => WorkerAction::PokeAnnounce,
            WorkerPhaseView::Ping { slot, .. } => WorkerAction::Ask {
                msg: ping_msg(slot, ping_echo(slot)),
                timeout_ms: PING_TIMEOUT_MS,
                retries: PING_RETRIES,
                pause_ms: 0,
            },
            WorkerPhaseView::Read { read, .. } => match read.ask() {
                Some(ask) => WorkerAction::Ask {
                    msg: ask.msg,
                    timeout_ms: READ_TIMEOUT_MS,
                    retries: MAX_RETRIES,
                    pause_ms: ask.pause_ms,
                },
                None => WorkerAction::Stop(StopReason::Exit),
            },
            WorkerPhaseView::Restart => WorkerAction::RestartTimer,
            WorkerPhaseView::Wait => if self.has_short {
                WorkerAction::WaitShort { timeout_ms: SHORT_WAIT_MS }
            } else {
                WorkerAction::Idle { ms: SHORT_WAIT_MS }
            },
            WorkerPhaseView::Drain => WorkerAction::PollLong,
            WorkerPhaseView::Command => WorkerAction::NextCommand,
            WorkerPhaseView::Timer => WorkerAction::CheckTimer,
            WorkerPhaseView::Stopped(reason) => WorkerAction::Stop(reason),
        }
    }

    /// The start of a round of discovery. A refresh only asks for announcements; the
    /// other rounds enable the notifications first. Without a short collection the slots
    /// are pinged, from the first on.
    pub open spec fn discover(self, round: Round) -> WorkerView {
        self.at(
            if !self.has_short {
                WorkerPhaseView::Ping { round, slot: 1 }
            } else if round == Round::Refresh {
                WorkerPhaseView::Announce(round)
            } else {
                WorkerPhaseView::Enable(round)
            },
        )
    }

    /// What follows a round of discovery: the known devices are read again, except in
    /// the first round.
    pub open spec fn discovered(self, round: Round) -> WorkerView {
        if round == Round::Start {
            self.at(WorkerPhaseView::Restart)
        } else {
            self.reread(round, 1)
        }
    }

    /// The known devices are read again, from `slot` on.
    pub open spec fn reread(self, round: Round, slot: int) -> WorkerView
        decreases MAX_SLOT + 1 - slot,
    {
        let read = ReadView::start(self.pid, slot as u8, 0, self.mem);
        if slot > MAX_SLOT {
            self.at(
                if round == Round::Refresh {
                    WorkerPhaseView::Command
                } else {
                    WorkerPhaseView::Restart
                },
            )
        } else if self.known.contains(slot as u8) && !read.over() {
            self.at(WorkerPhaseView::Read { reason: Reason::Reread(round), read })
        } else {
            self.reread(round, slot + 1)
        }
    }

    /// The slot behind `slot` is pinged, or the round is over.
    pub open spec fn ping_next(self, round: Round, slot: u8) -> WorkerView {
        if slot < MAX_SLOT {
            self.at(WorkerPhaseView::Ping { round, slot: (slot + 1) as u8 })
        } else {
            self.discovered(round)
        }
    }

    /// What follows the reading of the device at `slot`.
    pub open spec fn resume(self, reason: Reason, slot: u8) -> WorkerView {
        match reason {
            Reason::Connection => self.at(WorkerPhaseView::Drain),
            Reason::Event => self.at(WorkerPhaseView::Drain),
            Reason::Discovery(round) => self.ping_next(round, slot),
            Reason::Reread(round) => self.reread(round, slot + 1),
        }
    }

    /// The reading of the device at `slot` starts; it may be over at once.
    pub open spec fn begin_read(self, reason: Reason, slot: u8, wpid: u16) -> WorkerView {
        let read = ReadView::start(self.pid, slot, wpid, self.mem);
        if read.over() {
            self.resume(reason, slot)
        } else {
            self.at(WorkerPhaseView::Read { reason, read })
        }
    }

    /// The reading of a device went on to `read`. Where it ended with a state, the
    /// device is known from now on and the state is emitted.
    pub open spec fn after_read(self, reason: Reason, read: ReadView) -> (
        WorkerView,
        Option<EventView>,
    ) {
        match read.phase {
            ReadPhaseView::Done(Ok(Some(state))) => (
                WorkerView { known: self.known.insert(read.slot), ..self }.resume(
                    reason,
                    read.slot,
                ),
                Some(EventView::Update(state)),
            ),
            ReadPhaseView::Done(_) => (self.resume(reason, read.slot), None),
            _ => (self.at(WorkerPhaseView::Read { reason, read }), None),
        }
    }

    /// After the receiver was told something, and acknowledged it or did not. It is asked
    /// for announcements in any case, which are not acknowledged; where it did not
    /// acknowledge the setup, the slots are pinged as well, from the first on.
    pub open spec fn after_registers(self, acknowledged: bool) -> WorkerView {
        match self.phase {
            WorkerPhaseView::Enable(round) => WorkerView { acknowledged, ..self }.at(
                WorkerPhaseView::Announce(round),
            ),
            WorkerPhaseView::Announce(round) => if self.mute() {
                self.at(WorkerPhaseView::Ping { round, slot: 1 })
            } else {
                self.discovered(round)
            },
            _ => self,
        }
    }

    /// After the reply to a request.
    pub open spec fn after_reply(self, reply: Reply) -> (WorkerView, Option<EventView>) {
        match self.phase {
            WorkerPhaseView::Ping { round, slot } => (
                if ping_answered(slot, reply) {
                    self.begin_read(Reason::Discovery(round), slot, 0)
                } else {
                    self.ping_next(round, slot)
                },
                None,
            ),
            WorkerPhaseView::Read { reason, read } => {
                let (next, mem) = read.after_reply(self.mem, reply);
                WorkerView { mem, ..self }.after_read(reason, next)
            },
            _ => (self, None),
        }
    }

    /// After a connection notification: a device whose link came up is read, one whose
    /// link dropped is gone. A slot that no receiver has is ignored.
    pub open spec fn after_connection(self, conn: ConnectionNotification) -> (
        WorkerView,
        Option<EventView>,
    ) {
        let slot = conn.device_index;
        if !valid_slot(slot) {
            (self.at(WorkerPhaseView::Drain), None)
        } else if conn.link_established {
            (self.begin_read(Reason::Connection, slot, conn.wpid), None)
        } else if self.known.contains(slot) {
            (
                WorkerView { known: self.known.remove(slot), ..self }.at(WorkerPhaseView::Drain),
                Some(EventView::Gone(device_key_text(self.pid, slot))),
            )
        } else {
            (self.at(WorkerPhaseView::Drain), None)
        }
    }

    /// After the wait on the short interface gave `report`, which is empty where it
    /// timed out.
    pub open spec fn after_wait(self, report: Seq<u8>) -> (WorkerView, Option<EventView>) {
        if !(self.phase is Wait) {
            (self, None)
        } else {
            match notification_in(self.has_short, report) {
                Some(conn) => self.after_connection(conn),
                None => (self.at(WorkerPhaseView::Drain), None),
            }
        }
    }

    /// After the wait on the short interface failed: the receiver went away, and every
    /// device that was present with it.
    pub open spec fn after_wait_failure(self) -> (WorkerView, Seq<EventView>) {
        if self.phase is Wait {
            (
                WorkerView {
                    known: Set::empty(),
                    phase: WorkerPhaseView::Stopped(StopReason::NotifierLost),
                    ..self
                },
                departures(self.pid, self.known, MAX_SLOT),
            )
        } else {
            (self, Seq::empty())
        }
    }

    /// After a look at the long interface gave `report`, which is empty where nothing
    /// was pending. A known device that pushed an event is read.
    pub open spec fn after_event(self, report: Seq<u8>) -> WorkerView {
        if !(self.phase is Drain) {
            self
        } else if report.len() == 0 {
            self.at(WorkerPhaseView::Command)
        } else {
            match event_source(report) {
                Some(slot) => if self.known.contains(slot) {
                    self.begin_read(Reason::Event, slot, 0)
                } else {
                    self
                },
                None => self,
            }
        }
    }

    /// After a look at the command queue.
    pub open spec fn after_command(self, polled: Polled) -> WorkerView {
        if !(self.phase is Command) {
            self
        } else {
            match polled {
                Polled::Command(WorkerCommand::Refresh) => self.discover(Round::Refresh),
                Polled::Command(WorkerCommand::SetSafetyInterval(secs)) => WorkerView {
                    safety_secs: safety_interval(secs),
                    ..self
                },
                Polled::Command(WorkerCommand::Exit) => self.at(
                    WorkerPhaseView::Stopped(StopReason::Exit),
                ),
                Polled::Empty => self.at(WorkerPhaseView::Timer),
                Polled::Disconnected => self.at(WorkerPhaseView::Stopped(StopReason::Exit)),
            }
        }
    }

    /// After a look at the safety timer, which has run for `elapsed_secs`.
    pub open spec fn after_timer(self, elapsed_secs: u64) -> WorkerView {
        if !(self.phase is Timer) {
            self
        } else if elapsed_secs >= self.safety_secs {
            self.discover(Round::Safety)
        } else {
            self.at(WorkerPhaseView::Wait)
        }
    }

    /// After the safety timer was started over.
    pub open spec fn after_restart(self) -> WorkerView {
        if self.phase is Restart {
            self.at(WorkerPhaseView::Wait)
        } else {
            self
        }
    }
}

/// The departures of the known devices at the slots up to `last`, in the order of the
/// slots.
pub open spec fn departures(pid: u16, known: Set<u8>, last: u8) -> Seq<EventView>
    decreases last,
{
    if last == 0 {
        Seq::empty()
    } else {
        let before = departures(pid, known, (last - 1) as u8);
        if known.contains(last) {
            before.push(EventView::Gone(device_key_text(pid, last)))
        } else {
            before
        }
    }
}

/// Updates as plain values.
pub open spec fn event_views(events: Seq<DeviceEvent>) -> Seq<EventView> {
    events.map_values(|event: DeviceEvent| event@)
}

/// The connection notification in a report from the short interface, if there is a
/// short interface.
pub open spec fn notification_in(has_short: bool, report: Seq<u8>) -> Option<
    ConnectionNotification,
> {
    if !has_short {
        None
    } else {
        match header_of(report, report.len() as int) {
            Some(header) => connection_of(header),
            None => None,
        }
    }
}

/// The slot of the device that pushed a report as a feature event.
pub open spec fn event_source(report: Seq<u8>) -> Option<u8> {
    match header_of(report, report.len() as int) {
        Some(header) => match class_of(header) {
            ReportClass::FeatureEvent { device_index, .. } => Some(device_index),
            _ => None,
        },
        None => None,
    }
}

/// Whether the reply to a ping of `slot` shows a device there.
pub fn ping_shows_device(slot: u8, reply: &Reply) -> (shows: bool)
    ensures
        shows == ping_answered(slot, *reply),
{
    let echo: u8 = 0x55u8 ^ slot;
    match reply {
        Ok(header) => header[6] == echo,
        Err(_) => false,
    }
}

/// The ping of `slot`.
pub fn ping_slot(slot: u8) -> (msg: ShortMsg)
    ensures
        msg == ping_msg(slot, ping_echo(slot)),
{
    let echo: u8 = 0x55u8 ^ slot;
    ping(slot, echo)
}

impl Worker {
    /// The worker of a receiver, before its first action.
    pub fn start(pid: u16, has_short: bool, safety_secs: u64) -> (worker: Worker)
        ensures
            worker@ == (WorkerView {
                pid,
                has_short,
                acknowledged: false,
                safety_secs: safety_interval(safety_secs),
                known: Set::empty(),
                mem: Memory { cache: Map::empty(), profiles: Map::empty() },
                phase: WorkerPhaseView::Wait,
            }).discover(Round::Start),
            worker@.wf(),
    {
        let mut worker: Worker = Worker {
            pid,
            has_short,
            acknowledged: false,
            safety_secs: floor_interval(safety_secs),
            known: SlotSet::new(),
            cache: FeatureCache::new(),
            profiles: load_device_profiles(),
            phase: WorkerPhase::Wait,
        };
        worker.discover(Round::Start);
        worker
    }

    /// What is to be done next.
    pub fn action(&self) -> (action: WorkerAction)
        ensures
            action == self@.action(),
    {
        match &self.phase {
            WorkerPhase::Enable(_) => WorkerAction::EnableNotifications,
            WorkerPhase::Announce(_) => WorkerAction::PokeAnnounce,
            WorkerPhase::Ping { slot, .. } => WorkerAction::Ask {
                msg: ping_slot(*slot),
                timeout_ms: PING_TIMEOUT_MS,
                retries: PING_RETRIES,
                pause_ms: 0,
            },
            WorkerPhase::Read { read, .. } => match read.ask() {
                Some(ask) => WorkerAction::Ask {
                    msg: ask.msg,
                    timeout_ms: READ_TIMEOUT_MS,
                    retries: MAX_RETRIES,
                    pause_ms: ask.pause_ms,
                },
                None => WorkerAction::Stop(StopReason::Exit),
            },
            WorkerPhase::Restart => WorkerAction::RestartTimer,
            WorkerPhase::Wait => {
                if self.has_short {
                    WorkerAction::WaitShort { timeout_ms: SHORT_WAIT_MS }
                } else {
                    // No notifications to wait for.
                    WorkerAction::Idle { ms: SHORT_WAIT_MS }
                }
            },
            WorkerPhase::Drain => WorkerAction::PollLong,
            WorkerPhase::Command => WorkerAction::NextCommand,
            WorkerPhase::Timer => WorkerAction::CheckTimer,
            WorkerPhase::Stopped(reason) => WorkerAction::Stop(*reason),
        }
    }

    fn discover(&mut self, round: Round)
        ensures
            final(self)@ == old(self)@.discover(round),
    {
        self.phase =
        if !self.has_short {
            WorkerPhase::Ping { round, slot: 1 }
        } else if round == Round::Refresh {
            WorkerPhase::Announce(round)
        } else {
            WorkerPhase::Enable(round)
        };
    }

    fn discovered(&mut self, round: Round)
        ensures
            final(self)@ == old(self)@.discovered(round),
    {
        if round == Round::Start {
            self.phase = WorkerPhase::Restart;
        } else {
            self.reread_known(round, 1);
        }
    }

    fn reread_known(&mut self, round: Round, from: u8)
        ensures
            final(self)@ == old(self)@.reread(round, from as int),
    {
        let mut slot: u8 = from;
        while slot <= MAX_SLOT
            invariant
                from <= slot,
                self@ == old(self)@,
                old(self)@.reread(round, from as int) == old(self)@.reread(round, slot as int),
            decreases MAX_SLOT + 1 - slot,
        {
            if self.known.contains(slot) {
                let read: DeviceRead = DeviceRead::start(
                    self.pid,
                    slot,
                    0,
                    &self.cache,
                    &self.profiles,
                );
                match read.phase {
                    ReadPhase::Done(_) => {},
                    _ => {
                        self.phase = WorkerPhase::Read { reason: Reason::Reread(round), read };
                        return;
                    },
                }
            }
            slot += 1;
        }
        self.phase =
        if round == Round::Refresh {
            WorkerPhase::Command
        } else {
            WorkerPhase::Restart
        };
    }

    fn ping_next(&mut self, round: Round, slot: u8)
        ensures
            final(self)@ == old(self)@.ping_next(round, slot),
    {
        if slot < MAX_SLOT {
            self.phase = WorkerPhase::Ping { round, slot: slot + 1 };
        } else {
            self.discovered(round);
        }
    }

    fn resume(&mut self, reason: Reason, slot: u8)
        ensures
            final(self)@ == old(self)@.resume(reason, slot),
    {
        match reason {
            Reason::Connection | Reason::Event => {
                self.phase = WorkerPhase::Drain;
            },
            Reason::Discovery(round) => self.ping_next(round, slot),
            Reason::Reread(round) => {
                let next: u8 = if slot < MAX_SLOT {
                    slot + 1
                } else {
                    MAX_SLOT + 1
                };
                self.reread_known(round, next);
            },
        }
    }

    fn begin_read(&mut self, reason: Reason, slot: u8, wpid: u16)
        ensures
            final(self)@ == old(self)@.begin_read(reason, slot, wpid),
    {
        let read: DeviceRead = DeviceRead::start(
            self.pid,
            slot,
            wpid,
            &self.cache,
            &self.profiles,
        );
        match read.phase {
            ReadPhase::Done(_) => self.resume(reason, slot),
            _ => {
                self.phase = WorkerPhase::Read { reason, read };
            },
        }
    }

    /// The receiver was told something, and acknowledged it or did not.
    pub fn on_registers(&mut self, acknowledged: bool)
        ensures
            final(self)@ == old(self)@.after_registers(acknowledged),
            old(self)@.wf() ==> final(self)@.wf(),
    {
        match self.phase {
            WorkerPhase::Enable(round) => {
                self.acknowledged = acknowledged;
                self.phase = WorkerPhase::Announce(round);
            },
            WorkerPhase::Announce(round) => {
                if self.has_short && self.acknowledged {
                    self.discovered(round);
                } else {
                    self.phase = WorkerPhase::Ping { round, slot: 1 };
                }
            },
            _ => {},
        }
        proof {
            if old(self)@.wf() {
                law_worker_invariant(old(self)@);
            }
        }
    }

    /// The reply to the request that was due has come, or the request failed.
    pub fn on_reply(&mut self, reply: Reply) -> (event: Option<DeviceEvent>)
        ensures
            (final(self)@, event_view(event)) == old(self)@.after_reply(reply),
            old(self)@.wf() ==> final(self)@.wf(),
    {
        proof {
            if old(self)@.wf() {
                law_worker_invariant_replies(old(self)@, reply);
            }
        }
        let mut phase: WorkerPhase = WorkerPhase::Wait;
        std::mem::swap(&mut phase, &mut self.phase);
        match phase {
            WorkerPhase::Ping { round, slot } => {
                proof {
                    lemma_resume_any_phase(old(self)@, Reason::Discovery(round), slot);
                }
                if ping_shows_device(slot, &reply) {
                    self.begin_read(Reason::Discovery(round), slot, 0);
                } else {
                    self.ping_next(round, slot);
                }
                None
            },
            WorkerPhase::Read { reason, read } => {
                let mut read: DeviceRead = read;
                read.on_reply(&mut self.cache, &mut self.profiles, reply);
                proof {
                    let worker = WorkerView { mem: self@.mem, ..old(self)@ };
                    let with = WorkerView { known: worker.known.insert(read.slot), ..worker };
                    lemma_resume_any_phase(worker, reason, read.slot);
                    lemma_resume_any_phase(with, reason, read.slot);
                }
                self.after_read(reason, read)
            },
            other => {
                self.phase = other;
                None
            },
        }
    }

    fn after_read(&mut self, reason: Reason, read: DeviceRead) -> (event: Option<DeviceEvent>)
        ensures
            (final(self)@, event_view(event)) == old(self)@.after_read(reason, read@),
    {
        let slot: u8 = read.slot;
        match read.phase {
            ReadPhase::Done(Ok(Some(state))) => {
                self.known.insert(slot);
                self.resume(reason, slot);
                Some(DeviceEvent::Update(state))
            },
            ReadPhase::Done(_) => {
                // A device without a battery, or one that did not answer.
                self.resume(reason, slot);
                None
            },
            phase => {
                self.phase =
                WorkerPhase::Read {
                    reason,
                    read: DeviceRead { pid: read.pid, slot, wpid: read.wpid, phase },
                };
                None
            },
        }
    }

    fn handle_connection(&mut self, conn: ConnectionNotification) -> (event: Option<DeviceEvent>)
        ensures
            (final(self)@, event_view(event)) == old(self)@.after_connection(conn),
    {
        let slot: u8 = conn.device_index;
        if !(1 <= slot && slot <= MAX_SLOT) {
            self.phase = WorkerPhase::Drain;
            return None;
        }
        if conn.link_established {
            self.begin_read(Reason::Connection, slot, conn.wpid);
            None
        } else {
            let gone: bool = self.known.remove(slot);
            self.phase = WorkerPhase::Drain;
            if gone {
                Some(DeviceEvent::Gone(device_key(self.pid, slot)))
            } else {
                assert(self@.known =~= old(self)@.known);
                None
            }
        }
    }

    /// The wait is over: `report` came on the short interface, or nothing (it is empty).
    pub fn on_wait(&mut self, report: &[u8]) -> (event: Option<DeviceEvent>)
        ensures
            (final(self)@, event_view(event)) == old(self)@.after_wait(report@),
            old(self)@.wf() ==> final(self)@.wf(),
    {
        proof {
            if old(self)@.wf() {
                law_worker_invariant_reports(old(self)@, report@);
            }
        }
        if let WorkerPhase::Wait = self.phase {
            if self.has_short {
                if let Some(header) = normalize_report(report, report.len()) {
                    if let Some(conn) = parse_connection(&header) {
                        return self.handle_connection(conn);
                    }
                }
            }
            self.phase = WorkerPhase::Drain;
        }
        None
    }

    /// The short interface could not be read: the receiver went away. The departures of
    /// the devices that were present.
    pub fn on_wait_failure(&mut self) -> (gone: Vec<DeviceEvent>)
        ensures
            (final(self)@, event_views(gone@)) == old(self)@.after_wait_failure(),
            old(self)@.wf() ==> final(self)@.wf(),
    {
        let mut gone: Vec<DeviceEvent> = Vec::new();
        assert(event_views(gone@) =~= Seq::<EventView>::empty());
        if let WorkerPhase::Wait = self.phase {
            let mut slot: u8 = 0;
            while slot < MAX_SLOT
                invariant
                    slot <= MAX_SLOT,
                    *self == *old(self),
                    event_views(gone@) == departures(self@.pid, self@.known, slot),
                decreases MAX_SLOT - slot,
            {
                slot += 1;
                if self.known.contains(slot) {
                    let ghost before = event_views(gone@);
                    let event: DeviceEvent = DeviceEvent::Gone(device_key(self.pid, slot));
                    let ghost view = event@;
                    gone.push(event);
                    assert(event_views(gone@) =~= before.push(view));
                }
            }
            self.known = SlotSet::new();
            self.phase = WorkerPhase::Stopped(StopReason::NotifierLost);
        }
        gone
    }

    /// `report` was pending on the long interface, or nothing (it is empty).
    pub fn on_event(&mut self, report: &[u8])
        ensures
            final(self)@ == old(self)@.after_event(report@),
            old(self)@.wf() ==> final(self)@.wf(),
    {
        proof {
            if old(self)@.wf() {
                law_worker_invariant_reports(old(self)@, report@);
            }
        }
        if let WorkerPhase::Drain = self.phase {
            if report.len() == 0 {
                // Nothing is queued: stop draining.
                self.phase = WorkerPhase::Command;
            } else if let Some(header) = normalize_report(report, report.len()) {
                if let ReportClass::FeatureEvent { device_index, .. } = classify(&header) {
                    if self.known.contains(device_index) {
                        self.begin_read(Reason::Event, device_index, 0);
                    }
                }
            }
        }
    }

    /// The command queue was looked at.
    pub fn on_command(&mut self, polled: Polled)
        ensures
            final(self)@ == old(self)@.after_command(polled),
            old(self)@.wf() ==> final(self)@.wf(),
    {
        if let WorkerPhase::Command = self.phase {
            match polled {
                Polled::Command(WorkerCommand::Refresh) => self.discover(Round::Refresh),
                Polled::Command(WorkerCommand::SetSafetyInterval(secs)) => {
                    self.safety_secs = floor_interval(secs);
                },
                Polled::Command(WorkerCommand::Exit) | Polled::Disconnected => {
                    self.phase = WorkerPhase::Stopped(StopReason::Exit);
                },
                Polled::Empty => {
                    self.phase = WorkerPhase::Timer;
                },
            }
        }
    }

    /// The safety timer was looked at: it has run for `elapsed_secs` full seconds.
    pub fn on_timer(&mut self, elapsed_secs: u64)
        ensures
            final(self)@ == old(self)@.after_timer(elapsed_secs),
            old(self)@.wf() ==> final(self)@.wf(),
    {
        if let WorkerPhase::Timer = self.phase {
            if elapsed_secs >= self.safety_secs {
                self.discover(Round::Safety);
            } else {
                self.phase = WorkerPhase::Wait;
            }
        }
    }

    /// The safety timer was started over.
    pub fn on_restart(&mut self)
        ensures
            final(self)@ == old(self)@.after_restart(),
            old(self)@.wf() ==> final(self)@.wf(),
    {
        if let WorkerPhase::Restart = self.phase {
            self.phase = WorkerPhase::Wait;
        }
    }
}

fn floor_interval(secs: u64) -> (interval: u64)
    ensures
        interval == safety_interval(secs),
{
    if secs < MIN_SAFETY_SECS {
        MIN_SAFETY_SECS
    } else {
        secs
    }
}

/// A worker that goes on to read the known devices again keeps its invariant.
proof fn lemma_reread_wf(worker: WorkerView, round: Round, slot: int)
    requires
        valid_slots(worker.known),
        worker.safety_secs >= MIN_SAFETY_SECS,
        round != Round::Start,
        slot >= 1,
    ensures
        worker.reread(round, slot).wf(),
    decreases MAX_SLOT + 1 - slot,
{
    if slot <= MAX_SLOT {
        lemma_reread_wf(worker, round, slot + 1);
        law_started_read_is_wf(worker.pid, slot as u8, 0, worker.mem);
    }
}

/// How a worker goes on to read the known devices again does not depend on its phase.
proof fn lemma_reread_any_phase(worker: WorkerView, round: Round, slot: int)
    ensures
        worker.at(WorkerPhaseView::Wait).reread(round, slot) == worker.reread(round, slot),
    decreases MAX_SLOT + 1 - slot,
{
    if slot <= MAX_SLOT {
        lemma_reread_any_phase(worker, round, slot + 1);
    }
}

/// How a worker goes on after a device was read does not depend on its phase.
proof fn lemma_resume_any_phase(worker: WorkerView, reason: Reason, slot: u8)
    ensures
        worker.at(WorkerPhaseView::Wait).resume(reason, slot) == worker.resume(reason, slot),
{
    match reason {
        Reason::Discovery(round) => lemma_reread_any_phase(worker, round, 1),
        Reason::Reread(round) => lemma_reread_any_phase(worker, round, slot + 1),
        _ => {},
    }
}

/// A worker that goes on after a device was read keeps its invariant.
proof fn lemma_resume_wf(worker: WorkerView, reason: Reason, slot: u8)
    requires
        valid_slots(worker.known),
        worker.safety_secs >= MIN_SAFETY_SECS,
        reason matches Reason::Discovery(_) ==> worker.mute(),
        reason != Reason::Reread(Round::Start),
    ensures
        worker.resume(reason, slot).wf(),
{
    match reason {
        Reason::Discovery(round) => {
            if round != Round::Start {
                lemma_reread_wf(worker, round, 1);
            }
        },
        Reason::Reread(round) => lemma_reread_wf(worker, round, slot + 1),
        _ => {},
    }
}

/// What the receiver is told, the commands and the timer keep the invariant of a
/// worker.
pub proof fn law_worker_invariant(worker: WorkerView)
    requires
        worker.wf(),
    ensures
        forall|acknowledged: bool| #[trigger] worker.after_registers(acknowledged).wf(),
        worker.after_wait_failure().0.wf(),
        worker.after_restart().wf(),
        forall|polled: Polled| #[trigger] worker.after_command(polled).wf(),
        forall|secs: u64| #[trigger] worker.after_timer(secs).wf(),
{
    if let WorkerPhaseView::Announce(round) = worker.phase {
        if round != Round::Start {
            lemma_reread_wf(worker, round, 1);
        }
    }
}

/// Replies keep the invariant of a worker.
pub proof fn law_worker_invariant_replies(worker: WorkerView, reply: Reply)
    requires
        worker.wf(),
    ensures
        worker.after_reply(reply).0.wf(),
{
    match worker.phase {
        WorkerPhaseView::Ping { round, slot } => {
            lemma_resume_wf(worker, Reason::Discovery(round), slot);
        },
        WorkerPhaseView::Read { reason, read } => {
            let (next, mem) = read.after_reply(worker.mem, reply);
            crate::hid::device::law_read_progress(read, worker.mem, reply);
            let without = WorkerView { mem, ..worker };
            let with = WorkerView { known: worker.known.insert(read.slot), ..without };
            lemma_resume_wf(without, reason, read.slot);
            lemma_resume_wf(with, reason, read.slot);
        },
        _ => {},
    }
}

/// Reports keep the invariant of a worker, whatever they hold.
pub proof fn law_worker_invariant_reports(worker: WorkerView, report: Seq<u8>)
    requires
        worker.wf(),
    ensures
        worker.after_wait(report).0.wf(),
        worker.after_event(report).wf(),
{
}

/// Going on to read the known devices again changes nothing but the phase.
proof fn lemma_reread_keeps(worker: WorkerView, round: Round, slot: int)
    ensures
        worker.reread(round, slot) == worker.at(worker.reread(round, slot).phase),
    decreases MAX_SLOT + 1 - slot,
{
    if slot <= MAX_SLOT {
        lemma_reread_keeps(worker, round, slot + 1);
    }
}

/// Going on after a device was read changes nothing but the phase.
proof fn lemma_resume_keeps(worker: WorkerView, reason: Reason, slot: u8)
    ensures
        worker.resume(reason, slot) == worker.at(worker.resume(reason, slot).phase),
{
    match reason {
        Reason::Discovery(round) => lemma_reread_keeps(worker, round, 1),
        Reason::Reread(round) => lemma_reread_keeps(worker, round, slot + 1),
        _ => {},
    }
}

/// The devices that the tray takes to be present after an event, if `known` are those
/// it took to be present before.
pub open spec fn present_after(pid: u16, known: Set<u8>, event: Option<EventView>) -> Set<u8> {
    match event {
        None => known,
        Some(EventView::Update(state)) => known.insert(state.device_index),
        Some(EventView::Gone(key)) => known.filter(
            |slot: u8| device_key_text(pid, slot) != key,
        ),
    }
}

/// The updates tell the tray exactly which devices are present: a device that a reply
/// makes known is reported with its state, and a reply makes no other change. The state
/// is that of a device of this receiver, under its key.
pub proof fn law_replies_report_known_devices(worker: WorkerView, reply: Reply)
    requires
        worker.wf(),
    ensures
        ({
            let (after, event) = worker.after_reply(reply);
            &&& after.known == present_after(worker.pid, worker.known, event)
            &&& !(event matches Some(EventView::Gone(key)))
            &&& event matches Some(EventView::Update(state)) ==> {
                &&& after.known.contains(state.device_index)
                &&& valid_slot(state.device_index)
                &&& state.pid == worker.pid
                &&& state.device_key == device_key_text(worker.pid, state.device_index)
            }
            &&& after.pid == worker.pid
            &&& after.has_short == worker.has_short
            &&& after.safety_secs == worker.safety_secs
        }),
{
    match worker.phase {
        WorkerPhaseView::Ping { round, slot } => {
            lemma_resume_keeps(worker, Reason::Discovery(round), slot);
        },
        WorkerPhaseView::Read { reason, read } => {
            let (next, mem) = read.after_reply(worker.mem, reply);
            law_state_names_its_device(read, worker.mem, reply);
            let without = WorkerView { mem, ..worker };
            let with = WorkerView { known: worker.known.insert(read.slot), ..without };
            lemma_resume_keeps(without, reason, read.slot);
            lemma_resume_keeps(with, reason, read.slot);
        },
        _ => {},
    }
}

/// A wait reports a device as gone exactly where its link dropped while it was known,
/// under its key, and makes no other device known or unknown.
pub proof fn law_waits_report_gone_devices(worker: WorkerView, report: Seq<u8>)
    requires
        worker.wf(),
    ensures
        ({
            let (after, event) = worker.after_wait(report);
            &&& after.known == present_after(worker.pid, worker.known, event)
            &&& !(event matches Some(EventView::Update(state)))
            &&& event is Some <==> {
                &&& worker.phase is Wait
                &&& notification_in(worker.has_short, report) matches Some(conn)
                &&& !conn.link_established
                &&& worker.known.contains(conn.device_index)
            }
            &&& after.mem == worker.mem
        }),
{
    if worker.phase is Wait {
        if let Some(conn) = notification_in(worker.has_short, report) {
            let slot = conn.device_index;
            lemma_resume_keeps(worker, Reason::Connection, slot);
            if worker.known.contains(slot) {
                let key = device_key_text(worker.pid, slot);
                let kept = worker.known.filter(|s: u8| device_key_text(worker.pid, s) != key);
                assert forall|s: u8| kept.contains(s) == worker.known.remove(slot).contains(s) by {
                    if device_key_text(worker.pid, s) == key {
                        law_device_key_injective(worker.pid, s, worker.pid, slot);
                    }
                }
                assert(kept =~= worker.known.remove(slot));
            }
        }
    }
}

/// The departure of the device at the slot is among the events.
pub open spec fn departure_told(pid: u16, events: Seq<EventView>, slot: u8) -> bool {
    events.contains(EventView::Gone(device_key_text(pid, slot)))
}

/// The event is the departure of a known device at a slot up to `last`.
pub open spec fn is_departure(pid: u16, known: Set<u8>, last: u8, event: EventView) -> bool {
    exists|slot: u8| #[trigger]
        known.contains(slot) && 1 <= slot <= last && event == EventView::Gone(
            device_key_text(pid, slot),
        )
}

/// A receiver that goes away takes its devices with it: each of them is reported as
/// gone, once, and nothing else is reported; then no device is known and the worker has
/// stopped.
pub proof fn law_lost_receiver_reports_gone_devices(worker: WorkerView)
    requires
        worker.wf(),
        worker.phase is Wait,
    ensures
        ({
            let (after, gone) = worker.after_wait_failure();
            &&& after.known == Set::<u8>::empty()
            &&& after.phase == WorkerPhaseView::Stopped(StopReason::NotifierLost)
            &&& after.mem == worker.mem
            &&& forall|slot: u8| #[trigger]
                worker.known.contains(slot) ==> departure_told(worker.pid, gone, slot)
            &&& forall|i: int|
                0 <= i < gone.len() ==> is_departure(
                    worker.pid,
                    worker.known,
                    MAX_SLOT,
                    #[trigger] gone[i],
                )
            &&& forall|i: int, j: int|
                0 <= i < j < gone.len() ==> #[trigger] gone[i] != #[trigger] gone[j]
        }),
{
    lemma_departures(worker.pid, worker.known, MAX_SLOT);
}

proof fn lemma_departures(pid: u16, known: Set<u8>, last: u8)
    ensures
        ({
            let gone = departures(pid, known, last);
            &&& forall|slot: u8| #[trigger]
                known.contains(slot) && 1 <= slot <= last ==> departure_told(pid, gone, slot)
            &&& forall|i: int|
                0 <= i < gone.len() ==> is_departure(pid, known, last, #[trigger] gone[i])
            &&& forall|i: int, j: int|
                0 <= i < j < gone.len() ==> #[trigger] gone[i] != #[trigger] gone[j]
        }),
    decreases last,
{
    if last > 0 {
        let shorter = (last - 1) as u8;
        let before = departures(pid, known, shorter);
        let gone = departures(pid, known, last);
        lemma_departures(pid, known, shorter);
        assert forall|slot: u8| #[trigger]
            known.contains(slot) && 1 <= slot <= last implies departure_told(pid, gone, slot) by {
            let event = EventView::Gone(device_key_text(pid, slot));
            if slot < last {
                assert(departure_told(pid, before, slot));
                let i = choose|i: int| 0 <= i < before.len() && before[i] == event;
                assert(gone[i] == event);
            } else {
                assert(gone[gone.len() - 1] == event);
            }
        }
        assert forall|i: int| 0 <= i < gone.len() implies is_departure(
            pid,
            known,
            last,
            #[trigger] gone[i],
        ) by {
            if i < before.len() {
                assert(gone[i] == before[i]);
                assert(is_departure(pid, known, shorter, before[i]));
            }
        }
        assert forall|i: int, j: int| 0 <= i < j < gone.len() implies #[trigger] gone[i]
            != #[trigger] gone[j] by {
            assert(gone[i] == before[i]);
            if j < before.len() {
                assert(gone[j] == before[j]);
            } else {
                assert(is_departure(pid, known, shorter, before[i]));
                let slot = choose|slot: u8| #[trigger]
                    known.contains(slot) && 1 <= slot <= shorter && before[i] == EventView::Gone(
                        device_key_text(pid, slot),
                    );
                if device_key_text(pid, slot) == device_key_text(pid, last) {
                    law_device_key_injective(pid, slot, pid, last);
                }
            }
        }
    }
}

/// Commands, the timer, events and register traffic make no device known or unknown.
pub proof fn law_other_steps_keep_known_devices(
    worker: WorkerView,
    report: Seq<u8>,
    polled: Polled,
    secs: u64,
    acknowledged: bool,
)
    ensures
        worker.after_event(report).known == worker.known,
        worker.after_command(polled).known == worker.known,
        worker.after_timer(secs).known == worker.known,
        worker.after_registers(acknowledged).known == worker.known,
        worker.after_restart().known == worker.known,
        worker.after_event(report).mem == worker.mem,
        worker.after_command(polled).mem == worker.mem,
        worker.after_timer(secs).mem == worker.mem,
        worker.after_registers(acknowledged).mem == worker.mem,
        worker.after_restart().mem == worker.mem,
{
    if let WorkerPhaseView::Announce(round) = worker.phase {
        lemma_reread_keeps(worker, round, 1);
    }
    if worker.phase is Drain {
        if let Some(slot) = event_source(report) {
            lemma_resume_keeps(worker, Reason::Event, slot);
        }
    }
}

/// A notification for a slot that no receiver has changes nothing and reports nothing.
pub proof fn law_unpaired_slot_is_ignored(worker: WorkerView, conn: ConnectionNotification)
    requires
        !valid_slot(conn.device_index),
    ensures
        worker.after_connection(conn) == (worker.at(WorkerPhaseView::Drain), None::<EventView>),
{
}

/// A device whose link came up is read, under the wireless product id that the
/// notification gives. Nothing is read where it is known to have no battery.
pub proof fn law_link_up_starts_read(worker: WorkerView, conn: ConnectionNotification)
    requires
        valid_slot(conn.device_index),
        conn.link_established,
    ensures
        ({
            let read = ReadView::start(worker.pid, conn.device_index, conn.wpid, worker.mem);
            let (after, event) = worker.after_connection(conn);
            &&& event is None
            &&& !read.over() ==> after == worker.at(
                WorkerPhaseView::Read { reason: Reason::Connection, read },
            )
            &&& read.over() ==> after == worker.at(WorkerPhaseView::Drain)
        }),
{
}

/// A worker that is not stopped has something to do, and one that is stopped stays so,
/// whatever comes.
pub proof fn law_stopped_is_final(
    worker: WorkerView,
    reply: Reply,
    report: Seq<u8>,
    polled: Polled,
    secs: u64,
    acknowledged: bool,
)
    requires
        worker.wf(),
    ensures
        worker.action() is Stop <==> worker.phase is Stopped,
        worker.phase is Stopped ==> {
            &&& worker.after_reply(reply) == (worker, None::<EventView>)
            &&& worker.after_wait(report) == (worker, None::<EventView>)
            &&& worker.after_wait_failure() == (worker, Seq::<EventView>::empty())
            &&& worker.after_event(report) == worker
            &&& worker.after_command(polled) == worker
            &&& worker.after_timer(secs) == worker
            &&& worker.after_registers(acknowledged) == worker
            &&& worker.after_restart() == worker
        },
{
}

/// The short interface is used only where the receiver has one; without it the worker
/// idles instead of waiting. A receiver that acknowledged its setup is not pinged.
pub proof fn law_short_interface_use(worker: WorkerView)
    requires
        worker.wf(),
    ensures
        !worker.has_short ==> !(worker.action() is EnableNotifications),
        !worker.has_short ==> !(worker.action() is PokeAnnounce),
        !worker.has_short ==> !(worker.action() is WaitShort),
        worker.has_short ==> !(worker.action() is Idle),
        worker.has_short && worker.acknowledged ==> !(worker.phase is Ping),
{
}

/// A receiver that does not acknowledge the setup of its notifications is asked for
/// announcements all the same, and then swept with pings from the first slot on, in the
/// round at hand and on every refresh until it acknowledges a setup. One that does
/// acknowledge is not swept.
pub proof fn law_unacknowledged_receiver_is_swept(worker: WorkerView, round: Round, sent: bool)
    requires
        worker.wf(),
        worker.phase == WorkerPhaseView::Enable(round),
    ensures
        ({
            let ignored = worker.after_registers(false);
            let heeded = worker.after_registers(true);
            &&& ignored.action() == WorkerAction::PokeAnnounce
            &&& heeded.action() == WorkerAction::PokeAnnounce
            &&& ignored.after_registers(sent).phase == (WorkerPhaseView::Ping { round, slot: 1 })
            &&& ignored.after_registers(sent).mute()
            &&& !heeded.mute()
            &&& heeded.after_registers(sent) == heeded.discovered(round)
            &&& ignored.discover(Round::Refresh).after_registers(sent).phase == (
            WorkerPhaseView::Ping { round: Round::Refresh, slot: 1 })
        }),
{
}

/// Only the answer to a setup changes whether the receiver counts as mute.
pub proof fn law_only_setups_change_muteness(
    worker: WorkerView,
    reply: Reply,
    report: Seq<u8>,
    polled: Polled,
    secs: u64,
    acknowledged: bool,
)
    ensures
        worker.after_reply(reply).0.mute() == worker.mute(),
        worker.after_wait(report).0.mute() == worker.mute(),
        worker.after_event(report).mute() == worker.mute(),
        worker.after_command(polled).mute() == worker.mute(),
        worker.after_timer(secs).mute() == worker.mute(),
        worker.after_restart().mute() == worker.mute(),
        worker.after_wait_failure().0.mute() == worker.mute(),
        worker.after_registers(acknowledged).mute() == if worker.phase is Enable {
            !worker.has_short || !acknowledged
        } else {
            worker.mute()
        },
{
    match worker.phase {
        WorkerPhaseView::Announce(round) => lemma_reread_keeps(worker, round, 1),
        WorkerPhaseView::Ping { round, slot } => {
            lemma_resume_keeps(worker, Reason::Discovery(round), slot);
        },
        WorkerPhaseView::Read { reason, read } => {
            let (next, mem) = read.after_reply(worker.mem, reply);
            let without = WorkerView { mem, ..worker };
            let with = WorkerView { known: worker.known.insert(read.slot), ..without };
            lemma_resume_keeps(without, reason, read.slot);
            lemma_resume_keeps(with, reason, read.slot);
        },
        WorkerPhaseView::Drain => {
            if let Some(slot) = event_source(report) {
                lemma_resume_keeps(worker, Reason::Event, slot);
            }
        },
        _ => {},
    }
}

/// An exit command and a tray that is gone both stop the worker.
pub proof fn law_exit_stops(worker: WorkerView)
    requires
        worker.phase is Command,
    ensures
        worker.after_command(Polled::Command(WorkerCommand::Exit)).phase
            == WorkerPhaseView::Stopped(StopReason::Exit),
        worker.after_command(Polled::Disconnected).phase == WorkerPhaseView::Stopped(
            StopReason::Exit,
        ),
{
}

/// A quiet cycle (no report, no event, no command, the timer not due) leaves the worker
/// as it was.
pub proof fn law_quiet_cycle(worker: WorkerView, secs: u64)
    requires
        worker.phase is Wait,
        secs < worker.safety_secs,
    ensures
        worker.after_wait(Seq::empty()) == (worker.at(WorkerPhaseView::Drain), None::<EventView>),
        worker.at(WorkerPhaseView::Drain).after_event(Seq::empty()).after_command(
            Polled::Empty,
        ).after_timer(secs) == worker,
{
}

/// The safety timer, once it has run for the interval, starts a round of discovery, and
/// not before; no interval is shorter than the floor.
pub proof fn law_safety_timer(worker: WorkerView, secs: u64, asked: u64)
    requires
        worker.wf(),
        worker.phase is Timer,
    ensures
        secs >= worker.safety_secs ==> worker.after_timer(secs) == worker.discover(Round::Safety),
        secs < worker.safety_secs ==> worker.after_timer(secs) == worker.at(WorkerPhaseView::Wait),
        worker.safety_secs >= MIN_SAFETY_SECS,
        safety_interval(asked) >= MIN_SAFETY_SECS,
        asked >= MIN_SAFETY_SECS ==> safety_interval(asked) == asked,
{
}

/// A refresh asks the receiver for announcements, pings where it may have none to make,
/// and then reads every known device again before the next command is taken.
pub proof fn law_refresh_round(worker: WorkerView, sent: bool)
    requires
        worker.phase is Command,
    ensures
        ({
            let refreshing = worker.after_command(Polled::Command(WorkerCommand::Refresh));
            &&& worker.has_short ==> refreshing.action() == WorkerAction::PokeAnnounce
            &&& !worker.mute() ==> refreshing.after_registers(sent) == worker.reread(
                Round::Refresh,
                1,
            )
            &&& worker.has_short && worker.mute() ==> refreshing.after_registers(sent).phase == (
            WorkerPhaseView::Ping { round: Round::Refresh, slot: 1 })
            &&& !worker.has_short ==> refreshing.phase == (WorkerPhaseView::Ping {
                round: Round::Refresh,
                slot: 1,
            })
        }),
{
    let refreshing = worker.after_command(Polled::Command(WorkerCommand::Refresh));
    lemma_reread_any_phase(worker, Round::Refresh, 1);
    lemma_reread_any_phase(refreshing, Round::Refresh, 1);
    assert(refreshing.at(WorkerPhaseView::Wait) == worker.at(WorkerPhaseView::Wait));
}

/// Known devices are read again in the order of their slots: the next one is the first
/// known slot from `slot` on whose reading is not over at once, and the round ends when
/// there is none.
pub proof fn law_reread_order(worker: WorkerView, round: Round, slot: int)
    requires
        1 <= slot,
        worker.phase is Wait,
    ensures
        ({
            let after = worker.reread(round, slot);
            let due = |s: int|
                worker.known.contains(s as u8) && !ReadView::start(
                    worker.pid,
                    s as u8,
                    0,
                    worker.mem,
                ).over();
            match after.phase {
                WorkerPhaseView::Read { reason, read } => {
                    &&& reason == Reason::Reread(round)
                    &&& slot <= read.slot <= MAX_SLOT
                    &&& read == ReadView::start(worker.pid, read.slot, 0, worker.mem)
                    &&& due(read.slot as int)
                    &&& forall|s: int| slot <= s < read.slot ==> !(#[trigger] due(s))
                },
                phase => {
                    &&& phase == if round == Round::Refresh {
                        WorkerPhaseView::Command
                    } else {
                        WorkerPhaseView::Restart
                    }
                    &&& forall|s: int| slot <= s <= MAX_SLOT ==> !(#[trigger] due(s))
                },
            }
        }),
    decreases MAX_SLOT + 1 - slot,
{
    let due = |s: int|
        worker.known.contains(s as u8) && !ReadView::start(
            worker.pid,
            s as u8,
            0,
            worker.mem,
        ).over();
    if slot <= MAX_SLOT {
        law_reread_order(worker, round, slot + 1);
        assert(due(slot) == (worker.known.contains(slot as u8) && !ReadView::start(
            worker.pid,
            slot as u8,
            0,
            worker.mem,
        ).over()));
    }
}

/// A sweep pings every slot in turn: an unanswered ping leads to the next slot, and
/// that of the last slot ends the round, with nothing learned.
pub proof fn law_unanswered_ping(worker: WorkerView, round: Round, slot: u8, reply: Reply)
    requires
        worker.phase == (WorkerPhaseView::Ping { round, slot }),
        !ping_answered(slot, reply),
    ensures
        slot < MAX_SLOT ==> worker.after_reply(reply) == (
            worker.at(WorkerPhaseView::Ping { round, slot: (slot + 1) as u8 }),
            None::<EventView>,
        ),
        slot >= MAX_SLOT ==> worker.after_reply(reply) == (
            worker.discovered(round),
            None::<EventView>,
        ),
{
}

/// A sweep goes on with the next slot after a device was read, whatever came of it.
pub proof fn law_sweep_continues(worker: WorkerView, round: Round, read: ReadView)
    requires
        read.over(),
        read.slot < MAX_SLOT,
    ensures
        worker.after_read(Reason::Discovery(round), read).0.phase == (WorkerPhaseView::Ping {
            round,
            slot: (read.slot + 1) as u8,
        }),
{
}

/// What comes of a read is what is reported: nothing while it goes on, its state where
/// it ends with one, and nothing where it ends without. A device is known from its
/// first state on.
pub proof fn law_read_outcome_is_reported(
    worker: WorkerView,
    reason: Reason,
    read: ReadView,
    reply: Reply,
)
    requires
        worker.wf(),
        worker.phase == (WorkerPhaseView::Read { reason, read }),
    ensures
        ({
            let (after, event) = worker.after_reply(reply);
            let (next, mem) = read.after_reply(worker.mem, reply);
            &&& after.mem == mem
            &&& match next.phase {
                ReadPhaseView::Done(Ok(Some(state))) => event == Some(EventView::Update(state))
                    && after.known == worker.known.insert(read.slot),
                ReadPhaseView::Done(_) => event is None && after.known == worker.known,
                _ => event is None && after == (WorkerView { mem, ..worker }).at(
                    WorkerPhaseView::Read { reason, read: next },
                ),
            }
        }),
{
    let (next, mem) = read.after_reply(worker.mem, reply);
    let without = WorkerView { mem, ..worker };
    let with = WorkerView { known: worker.known.insert(read.slot), ..without };
    lemma_resume_keeps(without, reason, read.slot);
    lemma_resume_keeps(with, reason, read.slot);
}

/// A device whose features are known and whose link comes up is reported with the
/// charge that its next reply holds.
pub proof fn law_linked_device_is_reported(
    worker: WorkerView,
    report: Seq<u8>,
    conn: ConnectionNotification,
    feature_id: u16,
    feature_idx: u8,
    header: [u8; 7],
)
    requires
        worker.wf(),
        worker.phase is Wait,
        notification_in(worker.has_short, report) == Some(conn),
        conn.link_established,
        valid_slot(conn.device_index),
        worker.mem.cache.contains_key(cache_key(worker.pid, conn.device_index)),
        worker.mem.cache[cache_key(worker.pid, conn.device_index)].battery == Some(
            (feature_id, feature_idx),
        ),
        supported_battery(feature_id),
    ensures
        ({
            let slot = conn.device_index;
            let (reading, none) = worker.after_wait(report);
            let (after, event) = reading.after_reply(Ok(header));
            &&& none is None
            &&& reading.action() == WorkerAction::Ask {
                msg: battery_msg(slot, feature_id, feature_idx)->Ok_0,
                timeout_ms: READ_TIMEOUT_MS,
                retries: MAX_RETRIES,
                pause_ms: 0,
            }
            &&& battery_reading(feature_id, header) matches Ok((battery_percent, is_charging))
            &&& event == Some(
                EventView::Update(
                    BatteryView {
                        device_key: device_key_text(worker.pid, slot),
                        display_name: worker.mem.cache[cache_key(worker.pid, slot)].display_name,
                        pid: worker.pid,
                        device_index: slot,
                        battery_percent,
                        is_charging,
                    },
                ),
            )
            &&& after.known == worker.known.insert(slot)
            &&& after.phase is Drain
        }),
{
}

/// The HID++ header of a report stands at `at`: in front, or behind one byte that is no
/// report id, where the report is long enough.
pub open spec fn header_stands_at(report: Seq<u8>, at: int) -> bool {
    ||| at == 0 && report.len() == 7
    ||| at == 0 && report.len() >= 8 && (report[0] == 0x10 || report[0] == 0x11)
    ||| at == 1 && report.len() >= 8 && report[0] != 0x10 && report[0] != 0x11
}

/// The header of a report holds its bytes from where it stands on.
pub proof fn law_header_at(report: Seq<u8>, at: int)
    requires
        header_stands_at(report, at),
    ensures
        header_of(report, report.len() as int) is Some,
        forall|i: int|
            0 <= i < 7 ==> (#[trigger] header_of(report, report.len() as int)->0[i]) == report[at
                + i],
{
    let n = report.len() as int;
    assert forall|i: int| 0 <= i < 7 implies (#[trigger] header_of(report, n)->0[i]) == report[at
        + i] by {
        law_header_bytes(report, n, i);
    }
    law_header_bytes(report, n, 0);
}

/// Every event of a known device is followed up, whatever its feature and its params are:
/// where the low nibble of byte 3 is 0 and byte 2 is below 0x40, the device at the slot in
/// byte 1 is read, unless its reading is over at once. Any other report, and an event of
/// a device that is not known, changes nothing.
pub proof fn law_event_is_followed_up(worker: WorkerView, report: Seq<u8>, at: int)
    requires
        worker.phase is Drain,
        header_stands_at(report, at),
    ensures
        ({
            let slot = report[at + 1];
            let event = report[at + 2] < 0x40 && report[at + 3] & 0x0F == 0;
            let read = ReadView::start(worker.pid, slot, 0, worker.mem);
            &&& event && worker.known.contains(slot) && !read.over() ==> worker.after_event(report)
                == worker.at(WorkerPhaseView::Read { reason: Reason::Event, read })
            &&& event && worker.known.contains(slot) && read.over() ==> worker.after_event(report)
                == worker
            &&& !event || !worker.known.contains(slot) ==> worker.after_event(report) == worker
        }),
{
    law_header_at(report, at);
    let header = header_of(report, report.len() as int)->0;
    assert(header[1] == report[at + 1]);
    assert(header[2] == report[at + 2]);
    assert(header[3] == report[at + 3]);
    law_class_by_bytes(header);
}

/// Events of one device are all treated alike: two of them lead to the same state.
pub proof fn law_events_of_a_device_are_alike(
    worker: WorkerView,
    report: Seq<u8>,
    at: int,
    other: Seq<u8>,
    other_at: int,
)
    requires
        worker.phase is Drain,
        header_stands_at(report, at),
        header_stands_at(other, other_at),
        report[at + 2] < 0x40,
        other[other_at + 2] < 0x40,
        report[at + 3] & 0x0F == 0,
        other[other_at + 3] & 0x0F == 0,
        report[at + 1] == other[other_at + 1],
    ensures
        worker.after_event(report) == worker.after_event(other),
{
    law_event_is_followed_up(worker, report, at);
    law_event_is_followed_up(worker, other, other_at);
}

/// The events are taken in until none is pending, and then the commands; a report that is
/// too short to be one is passed over.
pub proof fn law_events_until_none(worker: WorkerView, report: Seq<u8>)
    requires
        worker.phase is Drain,
    ensures
        report.len() == 0 ==> worker.after_event(report) == worker.at(WorkerPhaseView::Command),
        0 < report.len() < 7 ==> worker.after_event(report) == worker,
        worker.action() == WorkerAction::PollLong,
{
    law_header_bytes(report, report.len() as int, 0);
}

/// What the bytes of a connection notification do: with bit 6 of byte 4 clear, the device
/// at the slot in byte 1 is read under the wireless product id in bytes 5 and 6, low byte
/// first; with the bit set, a known device is gone. Any other report, a slot that is not
/// 1 to 6 and a device that was not known change nothing.
pub proof fn law_link_is_followed_up(worker: WorkerView, report: Seq<u8>, at: int, wpid: u16)
    requires
        worker.phase is Wait,
        header_stands_at(report, at),
        wpid == report[at + 5] + 256 * report[at + 6],
    ensures
        ({
            let slot = report[at + 1];
            let paired = worker.has_short && report[at + 2] == 0x41 && 1 <= slot <= 6;
            let up = report[at + 4] & 0x40 == 0;
            let read = ReadView::start(worker.pid, slot, wpid, worker.mem);
            let (after, event) = worker.after_wait(report);
            &&& paired && up && !read.over() ==> event is None && after == worker.at(
                WorkerPhaseView::Read { reason: Reason::Connection, read },
            )
            &&& paired && up && read.over() ==> event is None && after == worker.at(
                WorkerPhaseView::Drain,
            )
            &&& paired && !up && worker.known.contains(slot) ==> event == Some(
                EventView::Gone(device_key_text(worker.pid, slot)),
            ) && after == (WorkerView { known: worker.known.remove(slot), ..worker }).at(
                WorkerPhaseView::Drain,
            )
            &&& paired && !up && !worker.known.contains(slot) ==> event is None && after
                == worker.at(WorkerPhaseView::Drain)
            &&& !paired ==> event is None && after == worker.at(WorkerPhaseView::Drain)
        }),
{
    law_header_at(report, at);
    let header = header_of(report, report.len() as int)->0;
    assert(header[1] == report[at + 1]);
    assert(header[2] == report[at + 2]);
    assert(header[4] == report[at + 4]);
    assert(header[5] == report[at + 5]);
    assert(header[6] == report[at + 6]);
    law_connection_bits(header);
}

/// A wait that gives no whole report changes nothing.
pub proof fn law_short_reports_are_passed_over(worker: WorkerView, report: Seq<u8>)
    requires
        worker.phase is Wait,
        report.len() < 7,
    ensures
        worker.after_wait(report) == (worker.at(WorkerPhaseView::Drain), None::<EventView>),
{
    law_header_bytes(report, report.len() as int, 0);
}

/// A ping asks the device at the slot to echo the slot with the bits of 0x55 flipped, and
/// only that byte in the last place of a reply shows the device.
pub proof fn law_ping_bytes(slot: u8, header: [u8; 7], err: HidError)
    ensures
        ping_msg(slot, ping_echo(slot)).device_index == slot,
        ping_msg(slot, ping_echo(slot)).feature_index == 0,
        ping_msg(slot, ping_echo(slot)).function_id == 1,
        ping_msg(slot, ping_echo(slot)).params[2] ^ slot == 0x55,
        ping_answered(slot, Ok(header)) <==> header[6] ^ slot == 0x55,
        !ping_answered(slot, Err(err)),
{
    let last = header[6];
    assert((0x55u8 ^ slot) ^ slot == 0x55) by (bit_vector);
    assert(last == (0x55u8 ^ slot) <==> last ^ slot == 0x55) by (bit_vector);
}

/// A device that answers the ping of its slot is read in the round at hand; where its
/// reading is over at once, the next slot is pinged, and after slot 6 the round is over.
pub proof fn law_answered_ping(worker: WorkerView, round: Round, slot: u8, header: [u8; 7])
    requires
        worker.phase == (WorkerPhaseView::Ping { round, slot }),
        header[6] ^ slot == 0x55,
    ensures
        ({
            let read = ReadView::start(worker.pid, slot, 0, worker.mem);
            let (after, event) = worker.after_reply(Ok(header));
            &&& event is None
            &&& !read.over() ==> after == worker.at(
                WorkerPhaseView::Read { reason: Reason::Discovery(round), read },
            )
            &&& read.over() && slot < 6 ==> after == worker.at(
                WorkerPhaseView::Ping { round, slot: (slot + 1) as u8 },
            )
            &&& read.over() && slot >= 6 ==> after == worker.discovered(round)
        }),
{
    law_ping_bytes(slot, header, HidError::NameMissing);
}

/// What is done in each phase: a ping waits 300 ms and is tried twice, any other request
/// waits 500 ms and is tried five times, and a wait lasts a second, on the short interface
/// where there is one.
pub proof fn law_worker_actions(worker: WorkerView)
    ensures
        worker.phase is Enable ==> worker.action() == WorkerAction::EnableNotifications,
        worker.phase is Announce ==> worker.action() == WorkerAction::PokeAnnounce,
        worker.phase matches WorkerPhaseView::Ping { round, slot } ==> worker.action() == (
        WorkerAction::Ask {
            msg: ping_msg(slot, 0x55u8 ^ slot),
            timeout_ms: 300,
            retries: 2,
            pause_ms: 0,
        }),
        worker.phase matches WorkerPhaseView::Read { reason, read } ==> read.ask() is Some
            ==> worker.action() == (WorkerAction::Ask {
            msg: read.ask()->0.msg,
            timeout_ms: 500,
            retries: 5,
            pause_ms: read.ask()->0.pause_ms,
        }),
        worker.phase is Restart ==> worker.action() == WorkerAction::RestartTimer,
        worker.phase is Wait && worker.has_short ==> worker.action() == (WorkerAction::WaitShort {
            timeout_ms: 1000,
        }),
        worker.phase is Wait && !worker.has_short ==> worker.action() == (WorkerAction::Idle {
            ms: 1000,
        }),
        worker.phase is Drain ==> worker.action() == WorkerAction::PollLong,
        worker.phase is Command ==> worker.action() == WorkerAction::NextCommand,
        worker.phase is Timer ==> worker.action() == WorkerAction::CheckTimer,
        worker.phase matches WorkerPhaseView::Stopped(reason) ==> worker.action()
            == WorkerAction::Stop(reason),
{
}

/// What the commands do: a refresh starts a round, an interval is taken as it is but never
/// below 15 seconds, and with no command left the timer is looked at.
pub proof fn law_commands(worker: WorkerView, secs: u64)
    requires
        worker.phase is Command,
    ensures
        ({
            let refreshed = worker.after_command(Polled::Command(WorkerCommand::Refresh));
            let set = worker.after_command(Polled::Command(WorkerCommand::SetSafetyInterval(secs)));
            &&& worker.has_short ==> refreshed == worker.at(
                WorkerPhaseView::Announce(Round::Refresh),
            )
            &&& !worker.has_short ==> refreshed == worker.at(
                WorkerPhaseView::Ping { round: Round::Refresh, slot: 1 },
            )
            &&& secs >= 15 ==> set.safety_secs == secs
            &&& secs < 15 ==> set.safety_secs == 15
            &&& set == (WorkerView { safety_secs: set.safety_secs, ..worker })
            &&& worker.after_command(Polled::Command(WorkerCommand::Exit)) == worker.at(
                WorkerPhaseView::Stopped(StopReason::Exit),
            )
            &&& worker.after_command(Polled::Disconnected) == worker.at(
                WorkerPhaseView::Stopped(StopReason::Exit),
            )
            &&& worker.after_command(Polled::Empty) == worker.at(WorkerPhaseView::Timer)
        }),
{
}

/// Where a round starts: with the notifications where the receiver has a short collection
/// (a refresh leaves them as they are), else with a ping of the first slot. The first
/// round ends with the timer, any other with the known devices.
pub proof fn law_rounds(worker: WorkerView, round: Round)
    ensures
        worker.has_short && round == Round::Refresh ==> worker.discover(round) == worker.at(
            WorkerPhaseView::Announce(round),
        ),
        worker.has_short && round != Round::Refresh ==> worker.discover(round) == worker.at(
            WorkerPhaseView::Enable(round),
        ),
        !worker.has_short ==> worker.discover(round) == worker.at(
            WorkerPhaseView::Ping { round, slot: 1 },
        ),
        worker.discovered(Round::Start) == worker.at(WorkerPhaseView::Restart),
        round != Round::Start ==> worker.discovered(round) == worker.reread(round, 1),
        worker.phase is Restart ==> worker.after_restart() == worker.at(WorkerPhaseView::Wait),
{
}

/// The events that are pending are taken in after a device was read because of its link or
/// of an event, whatever came of the reading.
pub proof fn law_drained_after_read(worker: WorkerView, reason: Reason, read: ReadView)
    requires
        reason == Reason::Connection || reason == Reason::Event,
        read.over(),
    ensures
        worker.after_read(reason, read).0.phase is Drain,
        worker.after_read(reason, read).0.mem == worker.mem,
        read.phase matches ReadPhaseView::Done(Ok(Some(state))) ==> worker.after_read(
            reason,
            read,
        ).1 == Some(EventView::Update(state)),
{
}

/// The events of a lost receiver are the departures of the known devices, one for each, by
/// rising slot: that of a slot stands behind those of the known slots below it.
pub proof fn law_departures_by_slot(pid: u16, known: Set<u8>, slot: u8, last: u8)
    requires
        known.contains(slot),
        1 <= slot <= last <= 6,
    ensures
        departures(pid, known, slot).len() == departures(pid, known, (slot - 1) as u8).len() + 1,
        departures(pid, known, slot).last() == EventView::Gone(device_key_text(pid, slot)),
        departures(pid, known, last).take(departures(pid, known, slot).len() as int) == departures(
            pid,
            known,
            slot,
        ),
    decreases last,
{
    let here = departures(pid, known, slot);
    let all = departures(pid, known, last);
    if last == slot {
        assert(all.take(here.len() as int) =~= here);
    } else {
        law_departures_by_slot(pid, known, slot, (last - 1) as u8);
        let before = departures(pid, known, (last - 1) as u8);
        assert(here.len() <= before.len()) by {
            lemma_departures_grow(pid, known, slot, (last - 1) as u8);
        }
        assert(all.take(here.len() as int) =~= before.take(here.len() as int));
    }
}

proof fn lemma_departures_grow(pid: u16, known: Set<u8>, slot: u8, last: u8)
    requires
        slot <= last,
    ensures
        departures(pid, known, slot).len() <= departures(pid, known, last).len(),
    decreases last,
{
    if slot < last {
        lemma_departures_grow(pid, known, slot, (last - 1) as u8);
    }
}

} // verus!
