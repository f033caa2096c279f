//! One pass over all receivers: each is opened, its connected devices are found and
//! each of them is read.

use crate::config::{load_device_profiles, DeviceProfiles};
use crate::hid::device::{
    cache_key, device_key_text, law_read_touches_own_device,
    law_started_read_is_wf, law_state_names_its_device, memory, outcome_view, DeviceRead,
    EntryView, FeatureCache, Memory, ReadPhase, ReadPhaseView, ReadView,
};
use crate::hid::discovery::{
    distinct_slots, Discovery, DiscoveryAction, DiscoveryPhase, DiscoveryView,
};
use crate::hid::error::{error_text, HidError};
use crate::hid::exchange::Reply;
use crate::hid::protocol::{ShortMsg, MAX_RETRIES, READ_TIMEOUT_MS};
use crate::model::{in_order, peers, BatteryState, BatteryView, PollResult};
use crate::text::{
    decimal, hex_digits, law_decimal_value, law_hex_digits_value, lines_of, number_of, push_decimal,
    push_hex, UPPER,
};
use vstd::prelude::*;

verus! {

/// The error line for a receiver.
pub open spec fn receiver_line(pid: u16, err: HidError) -> Seq<char> {
    "receiver "@ + hex_digits(pid as nat, 4, UPPER) + ": "@ + error_text(err)
}

/// The error line for a device of a receiver.
pub open spec fn device_line(pid: u16, slot: u8, err: HidError) -> Seq<char> {
    "receiver "@ + hex_digits(pid as nat, 4, UPPER) + " index "@ + decimal(slot as nat) + ": "@
        + error_text(err)
}

/// The error line for a receiver.
pub fn receiver_error(pid: u16, err: HidError) -> (line: String)
    ensures
        line@ == receiver_line(pid, err),
{
    let mut line: String = "receiver ".to_owned();
    push_hex(&mut line, pid as u64, 4, UPPER);
    line.append(": ");
    line.append(err.message().as_str());
    line
}

/// The error line for a device of a receiver.
pub fn device_error(pid: u16, slot: u8, err: HidError) -> (line: String)
    ensures
        line@ == device_line(pid, slot, err),
{
    let mut line: String = "receiver ".to_owned();
    push_hex(&mut line, pid as u64, 4, UPPER);
    line.append(" index ");
    push_decimal(&mut line, slot as u64);
    line.append(": ");
    line.append(err.message().as_str());
    line
}

/// The result of a pass for which HID access could not be initialized.
pub fn without_hid_access(cause: &str) -> (result: PollResult)
    ensures
        result.devices@ == Seq::<BatteryState>::empty(),
        result.errors@.len() == 1,
        result.errors@[0]@ == "failed to initialize hidapi: "@ + cause@,
{
    let mut result: PollResult = PollResult::default();
    let mut line: String = "failed to initialize hidapi: ".to_owned();
    line.append(cause);
    result.errors.push(line);
    result
}

/// Where a pass stands.
#[derive(Debug)]
pub enum PollPhase {
    /// The long collection of a receiver is opened.
    Open,
    /// The devices of a receiver are looked for.
    Discover(Discovery),
    /// The device at `slots[at]` is read.
    Read { slots: Vec<(u8, u16)>, at: usize, read: DeviceRead },
    Done,
}

/// The phase of a pass as plain values.
#[verifier::ext_equal]
pub enum PollPhaseView {
    Open,
    Discover(DiscoveryView),
    Read { slots: Seq<(u8, u16)>, at: int, read: ReadView },
    Done,
}

impl View for PollPhase {
    type V = PollPhaseView;

    open spec fn view(&self) -> PollPhaseView {
        match *self {
            PollPhase::Open => PollPhaseView::Open,
            PollPhase::Discover(discovery) => PollPhaseView::Discover(discovery@),
            PollPhase::Read { slots, at, read } => PollPhaseView::Read {
                slots: slots@,
                at: at as int,
                read: read@,
            },
            PollPhase::Done => PollPhaseView::Done,
        }
    }
}

/// What is to be done next for a pass.
#[derive(Clone, Copy, Debug, PartialEq, Eq)]
pub enum PollAction {
    /// Open the long collection of the receiver with this number.
    OpenReceiver { index: usize },
    /// A step of the search for the devices of the receiver with this number.
    Discover { index: usize, action: DiscoveryAction },
    /// Wait `pause_ms`, then send a request on the open long collection and get its
    /// reply.
    Ask { msg: ShortMsg, timeout_ms: i32, retries: usize, pause_ms: u64 },
    /// Nothing: the pass is over.
    Done,
}

/// One pass over all receivers.
#[derive(Debug)]
pub struct Poll {
    /// The product ids of the receivers.
    pub pids: Vec<u16>,
    /// The number of the receiver at hand.
    pub index: usize,
    pub cache: FeatureCache,
    pub profiles: DeviceProfiles,
    /// What was found so far.
    pub result: PollResult,
    pub phase: PollPhase,
}

/// A pass as plain values.
#[verifier::ext_equal]
pub struct PollView {
    pub pids: Seq<u16>,
    pub index: int,
    pub mem: Memory,
    pub devices: Seq<BatteryView>,
    pub errors: Seq<Seq<char>>,
    pub phase: PollPhaseView,
}

/// Readings as plain values.
pub open spec fn state_views(devices: Seq<BatteryState>) -> Seq<BatteryView> {
    devices.map_values(|state: BatteryState| state@)
}

impl View for Poll {
    type V = PollView;

    open spec fn view(&self) -> PollView {
        PollView {
            pids: self.pids@,
            index: self.index as int,
            mem: memory(self.cache, self.profiles),
            devices: state_views(self.result.devices@),
            errors: lines_of(self.result.errors@),
            phase: self.phase@,
        }
    }
}

/// Nothing is known of the devices at the slots from number `from` on.
pub open spec fn unread(mem: Memory, pid: u16, slots: Seq<(u8, u16)>, from: int) -> bool {
    forall|j: int|
        from <= j < slots.len() ==> !mem.cache.contains_key(cache_key(pid, (#[trigger] slots[j]).0))
}

impl PollView {
    /// Before anything was done.
    pub open spec fn start(pids: Seq<u16>) -> PollView {
        PollView {
            pids,
            index: 0,
            mem: Memory { cache: Map::empty(), profiles: Map::empty() },
            devices: Seq::empty(),
            errors: Seq::empty(),
            phase: if pids.len() > 0 {
                PollPhaseView::Open
            } else {
                PollPhaseView::Done
            },
        }
    }

    /// This pass in another phase.
    pub open spec fn at(self, phase: PollPhaseView) -> PollView {
        PollView { phase, ..self }
    }

    /// The product id of the receiver at hand.
    pub open spec fn pid(self) -> u16 {
        self.pids[self.index]
    }

    /// A receiver is at hand until the pass is over, and its devices are read at the
    /// slots that were found, each once: nothing is known yet of those that follow.
    pub open spec fn wf(self) -> bool {
        &&& 0 <= self.index
        &&& match self.phase {
            PollPhaseView::Open => self.index < self.pids.len(),
            PollPhaseView::Discover(discovery) => self.index < self.pids.len() && discovery.wf()
                && !(discovery.phase is Done) && self.mem.cache == Map::<u32, EntryView>::empty(),
            PollPhaseView::Read { slots, at, read } => {
                &&& self.index < self.pids.len()
                &&& 0 <= at < slots.len()
                &&& read.wf()
                &&& !read.over()
                &&& read.pid == self.pid()
                &&& read.slot == slots[at].0
                &&& read.wpid == slots[at].1
                &&& distinct_slots(slots)
                &&& unread(self.mem, self.pid(), slots, at + 1)
            },
            PollPhaseView::Done => true,
        }
    }

    /// The next action.
    pub open spec fn action(self) -> PollAction {
        match self.phase {
            PollPhaseView::Open => PollAction::OpenReceiver { index: self.index as usize },
            PollPhaseView::Discover(discovery) => PollAction::Discover {
                index: self.index as usize,
                action: discovery.action(),
            },
            PollPhaseView::Read { read, .. } => match read.ask() {
                Some(ask) => PollAction::Ask {
                    msg: ask.msg,
                    timeout_ms: READ_TIMEOUT_MS,
                    retries: MAX_RETRIES,
                    pause_ms: ask.pause_ms,
                },
                None => PollAction::Done,
            },
            PollPhaseView::Done => PollAction::Done,
        }
    }

    /// The next receiver is at hand, or the pass is over.
    pub open spec fn next_receiver(self) -> PollView {
        if self.index + 1 < self.pids.len() {
            PollView { index: self.index + 1, phase: PollPhaseView::Open, ..self }
        } else {
            self.at(PollPhaseView::Done)
        }
    }

    /// The outcome of reading the device at `slot` is noted: a reading, an error or,
    /// for a device without a battery, nothing.
    pub open spec fn noted(self, slot: u8, outcome: Result<Option<BatteryView>, HidError>) -> PollView {
        match outcome {
            Ok(Some(state)) => PollView { devices: self.devices.push(state), ..self },
            Ok(None) => self,
            Err(err) => PollView {
                errors: self.errors.push(device_line(self.pid(), slot, err)),
                ..self
            },
        }
    }

    /// The devices at `slots` are read, from number `at` on.
    pub open spec fn read_from(self, slots: Seq<(u8, u16)>, at: int) -> PollView
        decreases slots.len() - at,
    {
        if at < 0 || at >= slots.len() {
            self.next_receiver()
        } else {
            let read = ReadView::start(self.pid(), slots[at].0, slots[at].1, self.mem);
            match read.phase {
                ReadPhaseView::Done(outcome) => self.noted(slots[at].0, outcome).read_from(
                    slots,
                    at + 1,
                ),
                _ => self.at(PollPhaseView::Read { slots, at, read }),
            }
        }
    }

    /// The search for devices went on to `discovery`.
    pub open spec fn discovered(self, discovery: DiscoveryView) -> PollView {
        if discovery.phase is Done {
            self.read_from(discovery.slots, 0)
        } else {
            self.at(PollPhaseView::Discover(discovery))
        }
    }

    /// After the long collection of a receiver was opened, or could not be. What is
    /// known of devices belongs to one receiver; the profiles are kept.
    pub open spec fn after_open(self, ok: bool) -> PollView {
        if !(self.phase is Open) {
            self
        } else if ok {
            PollView {
                mem: Memory { cache: Map::empty(), ..self.mem },
                phase: PollPhaseView::Discover(DiscoveryView::start()),
                ..self
            }
        } else {
            PollView {
                errors: self.errors.push(
                    receiver_line(self.pid(), HidError::ReceiverUnavailable { pid: self.pid() }),
                ),
                ..self
            }.next_receiver()
        }
    }

    /// After the short collection of a receiver was opened, or could not be.
    pub open spec fn after_notifier(self, ok: bool) -> PollView {
        match self.phase {
            PollPhaseView::Discover(discovery) => self.discovered(discovery.after_open(ok)),
            _ => self,
        }
    }

    /// After a step whose outcome does not matter.
    pub open spec fn after_step(self) -> PollView {
        match self.phase {
            PollPhaseView::Discover(discovery) => self.discovered(discovery.after_step()),
            _ => self,
        }
    }

    /// After a look at the window for announcements.
    pub open spec fn after_window(self, over: bool) -> PollView {
        match self.phase {
            PollPhaseView::Discover(discovery) => self.discovered(discovery.after_window(over)),
            _ => self,
        }
    }

    /// After listening for an announcement.
    pub open spec fn after_heard(self, report: Seq<u8>) -> PollView {
        match self.phase {
            PollPhaseView::Discover(discovery) => self.discovered(discovery.after_heard(report)),
            _ => self,
        }
    }

    /// After the reply to a request.
    pub open spec fn after_reply(self, reply: Reply) -> PollView {
        match self.phase {
            PollPhaseView::Discover(discovery) => self.discovered(discovery.after_reply(reply)),
            PollPhaseView::Read { slots, at, read } => {
                let (next, mem) = read.after_reply(self.mem, reply);
                let pass = PollView { mem, ..self };
                match next.phase {
                    ReadPhaseView::Done(outcome) => pass.noted(read.slot, outcome).read_from(
                        slots,
                        at + 1,
                    ),
                    _ => pass.at(PollPhaseView::Read { slots, at, read: next }),
                }
            },
            _ => self,
        }
    }
}

proof fn lemma_read_from_any_phase(
    pass: PollView,
    phase: PollPhaseView,
    slots: Seq<(u8, u16)>,
    at: int,
)
    ensures
        pass.at(phase).read_from(slots, at) == pass.read_from(slots, at),
    decreases slots.len() - at,
{
    if 0 <= at < slots.len() {
        let read = ReadView::start(pass.pid(), slots[at].0, slots[at].1, pass.mem);
        if let ReadPhaseView::Done(outcome) = read.phase {
            lemma_read_from_any_phase(pass.noted(slots[at].0, outcome), phase, slots, at + 1);
            assert(pass.at(phase).noted(slots[at].0, outcome) == pass.noted(
                slots[at].0,
                outcome,
            ).at(phase));
        }
    }
}

impl Poll {
    /// Start a pass over the receivers with these product ids.
    pub fn start(pids: Vec<u16>) -> (poll: Poll)
        ensures
            poll@ == PollView::start(pids@),
            poll@.wf(),
    {
        let phase: PollPhase = if pids.len() > 0 {
            PollPhase::Open
        } else {
            PollPhase::Done
        };
        let poll: Poll = Poll {
            pids,
            index: 0,
            cache: FeatureCache::new(),
            profiles: load_device_profiles(),
            result: PollResult::default(),
            phase,
        };
        assert(poll@.devices =~= Seq::<BatteryView>::empty());
        assert(poll@.errors =~= Seq::<Seq<char>>::empty());
        poll
    }

    /// What is to be done next.
    pub fn action(&self) -> (action: PollAction)
        ensures
            action == self@.action(),
    {
        match &self.phase {
            PollPhase::Open => PollAction::OpenReceiver { index: self.index },
            PollPhase::Discover(discovery) => PollAction::Discover {
                index: self.index,
                action: discovery.action(),
            },
            PollPhase::Read { read, .. } => match read.ask() {
                Some(ask) => PollAction::Ask {
                    msg: ask.msg,
                    timeout_ms: READ_TIMEOUT_MS,
                    retries: MAX_RETRIES,
                    pause_ms: ask.pause_ms,
                },
                None => PollAction::Done,
            },
            PollPhase::Done => PollAction::Done,
        }
    }

    fn next_receiver(&mut self)
        requires
            old(self).index < old(self).pids@.len(),
        ensures
            final(self)@ == old(self)@.next_receiver(),
    {
        let last: usize = self.pids.len() - 1;
        if self.index < last {
            self.index = self.index + 1;
            self.phase = PollPhase::Open;
        } else {
            self.phase = PollPhase::Done;
        }
    }

    fn fail(&mut self, line: String)
        ensures
            final(self)@ == (PollView { errors: old(self)@.errors.push(line@), ..old(self)@ }),
            final(self).pids == old(self).pids,
            final(self).index == old(self).index,
    {
        let ghost text = line@;
        self.result.errors.push(line);
        assert(self@.errors =~= old(self)@.errors.push(text));
    }

    fn note(&mut self, slot: u8, outcome: Result<Option<BatteryState>, HidError>)
        requires
            old(self).index < old(self).pids@.len(),
        ensures
            final(self)@ == old(self)@.noted(slot, outcome_view(outcome)),
            final(self).pids == old(self).pids,
            final(self).index == old(self).index,
    {
        match outcome {
            Ok(Some(state)) => {
                let ghost view = state@;
                self.result.devices.push(state);
                assert(self@.devices =~= old(self)@.devices.push(view));
            },
            Ok(None) => {},
            Err(err) => {
                let line: String = device_error(self.pids[self.index], slot, err);
                self.fail(line);
            },
        }
    }

    fn read_from(&mut self, slots: Vec<(u8, u16)>, from: usize)
        requires
            old(self).index < old(self).pids@.len(),
        ensures
            final(self)@ == old(self)@.read_from(slots@, from as int),
    {
        let mut at: usize = from;
        while at < slots.len()
            invariant
                self.index < self.pids@.len(),
                old(self)@.read_from(slots@, from as int) == self@.read_from(slots@, at as int),
            decreases slots@.len() - at,
        {
            let (slot, wpid) = slots[at];
            let read: DeviceRead = DeviceRead::start(
                self.pids[self.index],
                slot,
                wpid,
                &self.cache,
                &self.profiles,
            );
            match read.phase {
                ReadPhase::Done(outcome) => self.note(slot, outcome),
                _ => {
                    self.phase = PollPhase::Read { slots, at, read };
                    return;
                },
            }
            at += 1;
        }
        self.next_receiver();
    }

    fn discovered(&mut self, discovery: Discovery)
        requires
            old(self).index < old(self).pids@.len(),
        ensures
            final(self)@ == old(self)@.discovered(discovery@),
    {
        match discovery.phase {
            DiscoveryPhase::Done => self.read_from(discovery.slots, 0),
            _ => {
                self.phase = PollPhase::Discover(discovery);
            },
        }
    }

    /// The long collection of the receiver at hand was opened (`ok`), or could not be.
    pub fn on_open(&mut self, ok: bool)
        requires
            old(self)@.wf(),
        ensures
            final(self)@ == old(self)@.after_open(ok),
            final(self)@.wf(),
    {
        if let PollPhase::Open = self.phase {
            if ok {
                self.cache = FeatureCache::new();
                self.phase = PollPhase::Discover(Discovery::start());
            } else {
                let pid: u16 = self.pids[self.index];
                let line: String = receiver_error(pid, HidError::ReceiverUnavailable { pid });
                self.fail(line);
                self.next_receiver();
            }
        }
    }

    /// Take out the search for devices, if one is under way.
    fn take_discovery(&mut self) -> (discovery: Option<Discovery>)
        ensures
            match discovery {
                Some(discovery) => old(self)@.phase == PollPhaseView::Discover(discovery@)
                    && final(self)@.at(old(self)@.phase) == old(self)@,
                None => !(old(self)@.phase is Discover) && final(self)@ == old(self)@,
            },
    {
        let mut phase: PollPhase = PollPhase::Done;
        std::mem::swap(&mut phase, &mut self.phase);
        match phase {
            PollPhase::Discover(discovery) => Some(discovery),
            other => {
                self.phase = other;
                None
            },
        }
    }

    /// The search for devices that was taken out went on to `discovery`.
    fn go_on(&mut self, discovery: Discovery)
        requires
            old(self).index < old(self).pids@.len(),
            old(self)@.mem.cache == Map::<u32, EntryView>::empty(),
            discovery@.wf(),
        ensures
            forall|phase: PollPhaseView| #[trigger]
                old(self)@.at(phase).discovered(discovery@) == final(self)@,
            final(self)@.wf(),
    {
        proof {
            let pass = old(self)@;
            lemma_read_from_wf(pass, discovery@.slots, 0);
            assert forall|phase: PollPhaseView| #[trigger]
                pass.at(phase).discovered(discovery@) == pass.discovered(discovery@) by {
                lemma_read_from_any_phase(pass, phase, discovery@.slots, 0);
            }
        }
        self.discovered(discovery);
    }

    /// The short collection of the receiver at hand was opened (`ok`), or could not be.
    pub fn on_notifier(&mut self, ok: bool)
        requires
            old(self)@.wf(),
        ensures
            final(self)@ == old(self)@.after_notifier(ok),
            final(self)@.wf(),
    {
        if let Some(discovery) = self.take_discovery() {
            let mut discovery: Discovery = discovery;
            discovery.on_open(ok);
            self.go_on(discovery);
        }
    }

    /// A step whose outcome does not matter was done.
    pub fn on_step(&mut self)
        requires
            old(self)@.wf(),
        ensures
            final(self)@ == old(self)@.after_step(),
            final(self)@.wf(),
    {
        if let Some(discovery) = self.take_discovery() {
            let mut discovery: Discovery = discovery;
            discovery.on_step();
            self.go_on(discovery);
        }
    }

    /// The window for announcements was looked at.
    pub fn on_window(&mut self, over: bool)
        requires
            old(self)@.wf(),
        ensures
            final(self)@ == old(self)@.after_window(over),
            final(self)@.wf(),
    {
        if let Some(discovery) = self.take_discovery() {
            let mut discovery: Discovery = discovery;
            discovery.on_window(over);
            self.go_on(discovery);
        }
    }

    /// `report` came on the short interface, or nothing (it is empty).
    pub fn on_heard(&mut self, report: &[u8])
        requires
            old(self)@.wf(),
        ensures
            final(self)@ == old(self)@.after_heard(report@),
            final(self)@.wf(),
    {
        if let Some(discovery) = self.take_discovery() {
            let mut discovery: Discovery = discovery;
            discovery.on_heard(report);
            self.go_on(discovery);
        }
    }

    /// The reply to the request that was due has come, or the request failed.
    pub fn on_reply(&mut self, reply: Reply)
        requires
            old(self)@.wf(),
        ensures
            final(self)@ == old(self)@.after_reply(reply),
            final(self)@.wf(),
    {
        if let Some(discovery) = self.take_discovery() {
            let mut discovery: Discovery = discovery;
            discovery.on_reply(reply);
            self.go_on(discovery);
            return;
        }
        let mut phase: PollPhase = PollPhase::Done;
        std::mem::swap(&mut phase, &mut self.phase);
        match phase {
            PollPhase::Read { slots, at, read } => {
                let slot: u8 = read.slot;
                let mut read: DeviceRead = read;
                read.on_reply(&mut self.cache, &mut self.profiles, reply);
                let ghost pass = PollView { mem: self@.mem, ..old(self)@ };
                proof {
                    if let PollPhaseView::Read { read: before, .. } = old(self)@.phase {
                        lemma_reply_keeps_unread(before, old(self)@.mem, reply, slots@, at as int);
                    }
                }
                match read.phase {
                    ReadPhase::Done(outcome) => {
                        proof {
                            let noted = pass.noted(slot, outcome_view(outcome));
                            lemma_read_from_any_phase(
                                noted,
                                PollPhaseView::Done,
                                slots@,
                                at + 1,
                            );
                            lemma_read_from_wf(noted, slots@, at + 1);
                        }
                        self.note(slot, outcome);
                        assert(at < slots.len());
                        self.read_from(slots, at + 1);
                    },
                    phase => {
                        self.phase =
                        PollPhase::Read {
                            slots,
                            at,
                            read: DeviceRead { pid: read.pid, slot, wpid: read.wpid, phase },
                        };
                    },
                }
            },
            other => {
                self.phase = other;
            },
        }
    }

    /// What the pass found, with the readings in the order they are shown in.
    pub fn finish(self) -> (result: PollResult)
        ensures
            result.errors == self.result.errors,
            result.devices@.to_multiset() == self.result.devices@.to_multiset(),
            in_order(result.devices@),
            forall|x: BatteryView| #[trigger]
                peers(result.devices@, x) == peers(self.result.devices@, x),
    {
        let mut result: PollResult = self.result;
        result.sort_devices();
        result
    }
}

proof fn lemma_read_from_wf(pass: PollView, slots: Seq<(u8, u16)>, at: int)
    requires
        0 <= pass.index < pass.pids.len(),
        0 <= at,
        distinct_slots(slots),
        unread(pass.mem, pass.pid(), slots, at),
    ensures
        pass.read_from(slots, at).wf(),
        pass.read_from(slots, at) == if at < slots.len() {
            pass.at(
                PollPhaseView::Read {
                    slots,
                    at,
                    read: ReadView::start(pass.pid(), slots[at].0, slots[at].1, pass.mem),
                },
            )
        } else {
            pass.next_receiver()
        },
{
    if at < slots.len() {
        law_started_read_is_wf(pass.pid(), slots[at].0, slots[at].1, pass.mem);
        assert(!pass.mem.cache.contains_key(cache_key(pass.pid(), slots[at].0)));
    }
}

/// A read learns of its own device only.
proof fn lemma_reply_keeps_unread(
    read: ReadView,
    mem: Memory,
    reply: Reply,
    slots: Seq<(u8, u16)>,
    at: int,
)
    requires
        0 <= at < slots.len(),
        distinct_slots(slots),
        read.slot == slots[at].0,
        unread(mem, read.pid, slots, at + 1),
    ensures
        unread(read.after_reply(mem, reply).1, read.pid, slots, at + 1),
{
    let after = read.after_reply(mem, reply).1;
    assert forall|j: int| at + 1 <= j < slots.len() implies !after.cache.contains_key(
        cache_key(read.pid, (#[trigger] slots[j]).0),
    ) by {
        let key = cache_key(read.pid, slots[j].0);
        assert(slots[at].0 != slots[j].0);
        law_read_touches_own_device(read, mem, reply, key, 0);
    }
}

/// A receiver that cannot be opened costs the pass one error line and nothing else:
/// it goes on with the next receiver.
pub proof fn law_unavailable_receiver(pass: PollView)
    requires
        pass.wf(),
        pass.phase is Open,
    ensures
        ({
            let after = pass.after_open(false);
            &&& after.errors == pass.errors.push(
                receiver_line(pass.pid(), HidError::ReceiverUnavailable { pid: pass.pid() }),
            )
            &&& after.devices == pass.devices
            &&& after.mem == pass.mem
            &&& if pass.index + 1 < pass.pids.len() {
                after.index == pass.index + 1 && after.phase is Open
            } else {
                after.phase is Done
            }
        }),
{
}

/// `longer` has all that `shorter` has, in front.
pub open spec fn extends<T>(longer: Seq<T>, shorter: Seq<T>) -> bool {
    shorter.len() <= longer.len() && longer.take(shorter.len() as int) == shorter
}

/// `after` has all readings and errors of `before`, in front.
pub open spec fn keeps_findings(before: PollView, after: PollView) -> bool {
    extends(after.devices, before.devices) && extends(after.errors, before.errors) && after.pids
        == before.pids
}

/// Every reading comes from one of the receivers and is keyed by receiver and slot.
pub open spec fn readings_name_devices(pass: PollView) -> bool {
    forall|i: int|
        0 <= i < pass.devices.len() ==> pass.pids.contains((#[trigger] pass.devices[i]).pid)
            && pass.devices[i].device_key == device_key_text(
            pass.devices[i].pid,
            pass.devices[i].device_index,
        )
}

proof fn lemma_extends_transitive<T>(a: Seq<T>, b: Seq<T>, c: Seq<T>)
    requires
        extends(b, a),
        extends(c, b),
    ensures
        extends(c, a),
{
    assert(c.take(a.len() as int) =~= c.take(b.len() as int).take(a.len() as int));
}

proof fn lemma_extends_itself<T>(s: Seq<T>)
    ensures
        extends(s, s),
        forall|x: T| extends(#[trigger] s.push(x), s),
{
    assert(s.take(s.len() as int) =~= s);
    assert forall|x: T| extends(#[trigger] s.push(x), s) by {
        assert(s.push(x).take(s.len() as int) =~= s);
    }
}

/// Reading on from a slot keeps the findings. Reads that are over at once add no
/// reading.
proof fn lemma_read_from_keeps(pass: PollView, slots: Seq<(u8, u16)>, at: int)
    ensures
        keeps_findings(pass, pass.read_from(slots, at)),
        pass.read_from(slots, at).devices == pass.devices,
    decreases slots.len() - at,
{
    lemma_extends_itself(pass.devices);
    lemma_extends_itself(pass.errors);
    if 0 <= at < slots.len() {
        let read = ReadView::start(pass.pid(), slots[at].0, slots[at].1, pass.mem);
        law_started_read_is_wf(pass.pid(), slots[at].0, slots[at].1, pass.mem);
        if let ReadPhaseView::Done(outcome) = read.phase {
            let noted = pass.noted(slots[at].0, outcome);
            lemma_read_from_keeps(noted, slots, at + 1);
            lemma_extends_transitive(
                pass.errors,
                noted.errors,
                noted.read_from(slots, at + 1).errors,
            );
        }
    }
}

/// A pass loses no finding: a reply adds at most one reading, after those that were
/// there, and the readings name the devices of the receivers.
pub proof fn law_reply_keeps_findings(pass: PollView, reply: Reply)
    requires
        pass.wf(),
    ensures
        keeps_findings(pass, pass.after_reply(reply)),
        pass.after_reply(reply).devices.len() <= pass.devices.len() + 1,
        readings_name_devices(pass) ==> readings_name_devices(pass.after_reply(reply)),
{
    lemma_extends_itself(pass.devices);
    lemma_extends_itself(pass.errors);
    match pass.phase {
        PollPhaseView::Discover(discovery) => {
            lemma_read_from_keeps(pass, discovery.after_reply(reply).slots, 0);
        },
        PollPhaseView::Read { slots, at, read } => {
            let (next, mem) = read.after_reply(pass.mem, reply);
            let learned = PollView { mem, ..pass };
            law_state_names_its_device(read, pass.mem, reply);
            if let ReadPhaseView::Done(outcome) = next.phase {
                let noted = learned.noted(read.slot, outcome);
                lemma_read_from_keeps(noted, slots, at + 1);
                lemma_extends_transitive(
                    pass.errors,
                    noted.errors,
                    noted.read_from(slots, at + 1).errors,
                );
                assert(pass.pids.contains(pass.pids[pass.index]));
            }
        },
        _ => {},
    }
}

/// Looking for devices adds no reading and no error line; a receiver that cannot be
/// opened adds its own.
pub proof fn law_discovery_keeps_findings(pass: PollView, ok: bool, report: Seq<u8>)
    requires
        pass.wf(),
    ensures
        keeps_findings(pass, pass.after_open(ok)),
        keeps_findings(pass, pass.after_notifier(ok)),
        keeps_findings(pass, pass.after_step()),
        keeps_findings(pass, pass.after_window(ok)),
        keeps_findings(pass, pass.after_heard(report)),
        pass.after_open(ok).devices == pass.devices,
        pass.after_notifier(ok).devices == pass.devices,
        pass.after_step().devices == pass.devices,
        pass.after_window(ok).devices == pass.devices,
        pass.after_heard(report).devices == pass.devices,
        pass.after_open(true).errors == pass.errors,
        pass.after_notifier(ok).errors == pass.errors,
        pass.after_step().errors == pass.errors,
        pass.after_window(ok).errors == pass.errors,
        pass.after_heard(report).errors == pass.errors,
{
    lemma_extends_itself(pass.devices);
    lemma_extends_itself(pass.errors);
    if let PollPhaseView::Discover(discovery) = pass.phase {
        lemma_read_from_keeps(pass, discovery.after_open(ok).slots, 0);
        lemma_read_from_keeps(pass, discovery.after_step().slots, 0);
        lemma_read_from_keeps(pass, discovery.after_window(ok).slots, 0);
        lemma_read_from_keeps(pass, discovery.after_heard(report).slots, 0);
        lemma_read_from_wf(pass, discovery.after_open(ok).slots, 0);
        lemma_read_from_wf(pass, discovery.after_step().slots, 0);
        lemma_read_from_wf(pass, discovery.after_window(ok).slots, 0);
        lemma_read_from_wf(pass, discovery.after_heard(report).slots, 0);
    }
}

/// The slots that were found are read in order: where the read of one is over, that of
/// the next begins. After the last the next receiver is at hand.
pub proof fn law_slots_are_read_in_order(
    pass: PollView,
    slots: Seq<(u8, u16)>,
    at: int,
    read: ReadView,
    reply: Reply,
)
    requires
        pass.wf(),
        pass.phase == (PollPhaseView::Read { slots, at, read }),
        read.after_reply(pass.mem, reply).0.over(),
    ensures
        ({
            let after = pass.after_reply(reply);
            let mem = read.after_reply(pass.mem, reply).1;
            if at + 1 < slots.len() {
                &&& after.index == pass.index
                &&& after.phase == (PollPhaseView::Read {
                    slots,
                    at: at + 1,
                    read: ReadView::start(pass.pid(), slots[at + 1].0, slots[at + 1].1, mem),
                })
            } else if pass.index + 1 < pass.pids.len() {
                after.index == pass.index + 1 && after.phase is Open
            } else {
                after.phase is Done
            }
        }),
{
    let (next, mem) = read.after_reply(pass.mem, reply);
    let learned = PollView { mem, ..pass };
    if let ReadPhaseView::Done(outcome) = next.phase {
        let noted = learned.noted(read.slot, outcome);
        lemma_reply_keeps_unread(read, pass.mem, reply, slots, at);
        lemma_read_from_wf(noted, slots, at + 1);
    }
}

/// The devices that a search found are read from the first slot on.
pub proof fn law_found_slots_are_read(pass: PollView, found: DiscoveryView)
    requires
        pass.wf(),
        pass.phase is Discover,
        found.wf(),
        found.phase is Done,
    ensures
        pass.discovered(found) == if found.slots.len() > 0 {
            pass.at(
                PollPhaseView::Read {
                    slots: found.slots,
                    at: 0,
                    read: ReadView::start(
                        pass.pid(),
                        found.slots[0].0,
                        found.slots[0].1,
                        pass.mem,
                    ),
                },
            )
        } else {
            pass.next_receiver()
        },
{
    lemma_read_from_wf(pass, found.slots, 0);
}

/// The pass after none of the first `n` receivers could be opened.
pub open spec fn after_refusals(pass: PollView, n: nat) -> PollView
    decreases n,
{
    if n == 0 {
        pass
    } else {
        after_refusals(pass, (n - 1) as nat).after_open(false)
    }
}

/// The lines of receivers that cannot be opened.
pub open spec fn refusal_lines(pids: Seq<u16>) -> Seq<Seq<char>> {
    pids.map_values(|pid: u16| receiver_line(pid, HidError::ReceiverUnavailable { pid }))
}

/// Where no receiver can be opened, the pass ends with one line for each, in order,
/// and no reading.
pub proof fn law_no_receiver_opens(pids: Seq<u16>, n: nat)
    requires
        n <= pids.len(),
    ensures
        ({
            let after = after_refusals(PollView::start(pids), n);
            &&& after.errors == refusal_lines(pids.take(n as int))
            &&& after.devices == Seq::<BatteryView>::empty()
            &&& after.pids == pids
            &&& if n < pids.len() {
                after.phase is Open && after.index == n
            } else {
                after.phase is Done
            }
        }),
    decreases n,
{
    let start = PollView::start(pids);
    if n == 0 {
        assert(refusal_lines(pids.take(0)) =~= Seq::<Seq<char>>::empty());
    } else {
        let m = (n - 1) as nat;
        law_no_receiver_opens(pids, m);
        let before = after_refusals(start, m);
        assert(refusal_lines(pids.take(n as int)) =~= refusal_lines(pids.take(m as int)).push(
            receiver_line(pids[m as int], HidError::ReceiverUnavailable { pid: pids[m as int] }),
        ));
    }
}

/// A line names the receiver by its product id in four hex digits, the device by its slot
/// in decimal, and ends with the text of the error.
pub proof fn law_line_parts(pid: u16, slot: u8, err: HidError)
    ensures
        ({
            let line = receiver_line(pid, err);
            &&& line.take(9) == "receiver "@
            &&& number_of(line.subrange(9, 13), 16) == pid
            &&& line.subrange(13, 15) == ": "@
            &&& line.skip(15) == error_text(err)
        }),
        ({
            let line = device_line(pid, slot, err);
            let end = line.len() - 2 - error_text(err).len();
            &&& line.take(9) == "receiver "@
            &&& number_of(line.subrange(9, 13), 16) == pid
            &&& line.subrange(13, 20) == " index "@
            &&& number_of(line.subrange(20, end), 10) == slot
            &&& line.subrange(end, end + 2) == ": "@
            &&& line.skip(end + 2) == error_text(err)
        }),
{
    reveal_strlit("receiver ");
    reveal_strlit(": ");
    reveal_strlit(" index ");
    reveal_with_fuel(vstd::arithmetic::power::pow, 5);
    law_hex_digits_value(pid as nat, 4, UPPER);
    law_decimal_value(slot as nat);
    let digits = hex_digits(pid as nat, 4, UPPER);
    let line = receiver_line(pid, err);
    assert(line.take(9) =~= "receiver "@);
    assert(line.subrange(9, 13) =~= digits);
    assert(line.subrange(13, 15) =~= ": "@);
    assert(line.skip(15) =~= error_text(err));
    let long = device_line(pid, slot, err);
    let end = long.len() - 2 - error_text(err).len();
    assert(long.take(9) =~= "receiver "@);
    assert(long.subrange(9, 13) =~= digits);
    assert(long.subrange(13, 20) =~= " index "@);
    assert(long.subrange(20, end) =~= decimal(slot as nat));
    assert(long.subrange(end, end + 2) =~= ": "@);
    assert(long.skip(end + 2) =~= error_text(err));
}

/// What comes of the reading of a device is noted: its state behind the other states, an
/// error as a line of that device behind the other lines, and nothing of a device without
/// a battery or of one that is still being read.
pub proof fn law_outcome_is_noted(
    pass: PollView,
    slots: Seq<(u8, u16)>,
    at: int,
    read: ReadView,
    reply: Reply,
)
    requires
        pass.wf(),
        pass.phase == (PollPhaseView::Read { slots, at, read }),
    ensures
        ({
            let after = pass.after_reply(reply);
            let (next, mem) = read.after_reply(pass.mem, reply);
            &&& after.mem == mem
            &&& match next.phase {
                ReadPhaseView::Done(Ok(Some(state))) => after.devices == pass.devices.push(state)
                    && after.errors == pass.errors,
                ReadPhaseView::Done(Ok(None)) => after.devices == pass.devices && after.errors
                    == pass.errors,
                ReadPhaseView::Done(Err(err)) => after.devices == pass.devices && after.errors
                    == pass.errors.push(device_line(pass.pids[pass.index], slots[at].0, err)),
                _ => after.devices == pass.devices && after.errors == pass.errors && after.phase
                    == (PollPhaseView::Read { slots, at, read: next }),
            }
        }),
{
    let (next, mem) = read.after_reply(pass.mem, reply);
    if let ReadPhaseView::Done(outcome) = next.phase {
        lemma_reply_keeps_unread(read, pass.mem, reply, slots, at);
        let noted = PollView { mem, ..pass }.noted(read.slot, outcome);
        lemma_read_from_wf(noted, slots, at + 1);
    }
}

/// A receiver that opens is searched for devices with nothing cached of another receiver;
/// the profiles and what was found stay.
pub proof fn law_opened_receiver_is_searched(pass: PollView)
    requires
        pass.phase is Open,
    ensures
        ({
            let after = pass.after_open(true);
            &&& after.phase == PollPhaseView::Discover(DiscoveryView::start())
            &&& after.mem.cache.dom().is_empty()
            &&& after.mem.profiles == pass.mem.profiles
            &&& after.devices == pass.devices
            &&& after.errors == pass.errors
            &&& after.index == pass.index
            &&& after.pids == pass.pids
        }),
{
}

/// What is done in each phase: every request of a reading waits 500 ms and is tried five
/// times, and everything else is about the receiver at hand.
pub proof fn law_poll_actions(pass: PollView)
    requires
        pass.wf(),
        pass.pids.len() <= usize::MAX,
    ensures
        pass.phase is Open ==> pass.action() is OpenReceiver && pass.action()->OpenReceiver_index
            == pass.index,
        pass.phase matches PollPhaseView::Discover(discovery) ==> pass.action() is Discover
            && pass.action()->Discover_index == pass.index && pass.action()->action
            == discovery.action(),
        pass.phase matches PollPhaseView::Read { slots, at, read } ==> read.ask() is Some
            ==> pass.action() == (PollAction::Ask {
            msg: read.ask()->0.msg,
            timeout_ms: 500,
            retries: 5,
            pause_ms: read.ask()->0.pause_ms,
        }),
        pass.phase is Done ==> pass.action() == PollAction::Done,
{
}

/// A pass starts with the first receiver, if there is one, with nothing found and nothing
/// remembered.
pub proof fn law_pass_starts_empty(pids: Seq<u16>)
    ensures
        ({
            let start = PollView::start(pids);
            &&& start.pids == pids
            &&& start.index == 0
            &&& start.devices.len() == 0
            &&& start.errors.len() == 0
            &&& start.mem.cache.dom().is_empty()
            &&& start.mem.profiles.dom().is_empty()
            &&& start.phase is Open <==> pids.len() > 0
            &&& start.phase is Done <==> pids.len() == 0
        }),
{
}

/// The search of a receiver is the discovery: each of its steps is one of the discovery,
/// until that is done.
pub proof fn law_search_is_the_discovery(
    pass: PollView,
    discovery: DiscoveryView,
    ok: bool,
    report: Seq<u8>,
    reply: Reply,
)
    requires
        pass.phase == PollPhaseView::Discover(discovery),
    ensures
        !(discovery.after_open(ok).phase is Done) ==> pass.after_notifier(ok) == pass.at(
            PollPhaseView::Discover(discovery.after_open(ok)),
        ),
        !(discovery.after_step().phase is Done) ==> pass.after_step() == pass.at(
            PollPhaseView::Discover(discovery.after_step()),
        ),
        !(discovery.after_window(ok).phase is Done) ==> pass.after_window(ok) == pass.at(
            PollPhaseView::Discover(discovery.after_window(ok)),
        ),
        !(discovery.after_heard(report).phase is Done) ==> pass.after_heard(report) == pass.at(
            PollPhaseView::Discover(discovery.after_heard(report)),
        ),
        !(discovery.after_reply(reply).phase is Done) ==> pass.after_reply(reply) == pass.at(
            PollPhaseView::Discover(discovery.after_reply(reply)),
        ),
{
}

} // verus!
