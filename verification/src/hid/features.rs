//! Feature enumeration: the table of HID++ 2.0 features of a device.
//!
//! The index of IFeatureSet (0x0001) comes from IRoot (0x0000); IFeatureSet gives
//! the number of features and then the id at each position. A device that just woke
//! up often fails the first attempt, so an enumeration makes a few of them.

use crate::hid::battery::{big_endian, join_bytes};
use crate::hid::error::HidError;
use crate::hid::exchange::{Reply, RETRY_DELAY_MS};
use crate::hid::protocol::{
    feature_msg, get_feature, get_feature_count, get_feature_id, request_msg, ShortMsg,
};
use std::collections::HashMap;
use vstd::prelude::*;

verus! {

broadcast use vstd::std_specs::hash::group_hash_axioms;

/// The id of IFeatureSet.
pub const FEATURE_SET: u16 = 0x0001;

/// How often an enumeration is attempted.
pub const ENUM_ATTEMPTS: u8 = 3;

/// A request to a device, to be sent after a pause.
#[derive(Clone, Copy, Debug, PartialEq, Eq)]
pub struct Ask {
    pub msg: ShortMsg,
    pub pause_ms: u64,
}

/// Where an enumeration stands.
#[derive(Clone, Copy, Debug, PartialEq, Eq, Structural)]
pub enum EnumerationPhase {
    /// IRoot is asked for IFeatureSet.
    Root,
    /// IFeatureSet is asked for the number of features.
    Count { set_index: u8 },
    /// IFeatureSet is asked for the id at `position`.
    Entry { set_index: u8, count: u8, position: u8 },
    Done,
    Failed(HidError),
}

/// The enumeration of the features of the device at `slot`.
#[derive(Debug)]
pub struct Enumeration {
    pub slot: u8,
    pub attempt: u8,
    /// Feature ids found so far, with their table index.
    pub features: HashMap<u16, u8>,
    pub phase: EnumerationPhase,
}

/// An enumeration as plain values.
#[verifier::ext_equal]
pub struct EnumerationView {
    pub slot: u8,
    pub attempt: u8,
    pub features: Map<u16, u8>,
    pub phase: EnumerationPhase,
}

impl View for Enumeration {
    type V = EnumerationView;

    open spec fn view(&self) -> EnumerationView {
        EnumerationView {
            slot: self.slot,
            attempt: self.attempt,
            features: self.features@,
            phase: self.phase,
        }
    }
}

/// The table of a device whose IFeatureSet stands at `set_index` and lists `ids`
/// from position 1 on: every id that is not zero has its (last) position.
pub open spec fn feature_table(set_index: u8, ids: Seq<u16>) -> Map<u16, u8>
    decreases ids.len(),
{
    if ids.len() == 0 {
        Map::<u16, u8>::empty().insert(FEATURE_SET, set_index)
    } else if ids.last() == 0 {
        feature_table(set_index, ids.drop_last())
    } else {
        feature_table(set_index, ids.drop_last()).insert(ids.last(), ids.len() as u8)
    }
}

impl EnumerationView {
    /// The first attempt, before anything was asked.
    pub open spec fn start(slot: u8) -> EnumerationView {
        EnumerationView {
            slot,
            attempt: 0,
            features: Map::empty(),
            phase: EnumerationPhase::Root,
        }
    }

    /// The attempt and the position are within their bounds.
    pub open spec fn wf(self) -> bool {
        &&& self.attempt < ENUM_ATTEMPTS
        &&& self.phase matches EnumerationPhase::Entry { count, position, .. } ==> 1 <= position
            <= count
    }

    pub open spec fn over(self) -> bool {
        self.phase is Done || self.phase is Failed
    }

    /// The request that is due, if any. A repeated attempt begins after a pause.
    pub open spec fn ask(self) -> Option<Ask> {
        match self.phase {
            EnumerationPhase::Root => Some(
                Ask {
                    msg: feature_msg(self.slot, FEATURE_SET),
                    pause_ms: if self.attempt > 0 {
                        RETRY_DELAY_MS
                    } else {
                        0
                    },
                },
            ),
            EnumerationPhase::Count { set_index } => Some(
                Ask { msg: request_msg(self.slot, set_index, 0, 0), pause_ms: 0 },
            ),
            EnumerationPhase::Entry { set_index, position, .. } => Some(
                Ask { msg: request_msg(self.slot, set_index, 1, position), pause_ms: 0 },
            ),
            _ => None,
        }
    }

    /// The enumeration after its attempt failed: the next attempt, or the end.
    pub open spec fn after_failure(self) -> EnumerationView {
        if self.attempt + 1 < ENUM_ATTEMPTS {
            EnumerationView {
                attempt: (self.attempt + 1) as u8,
                features: Map::empty(),
                phase: EnumerationPhase::Root,
                ..self
            }
        } else {
            EnumerationView {
                phase: EnumerationPhase::Failed(HidError::EnumerationFailed { slot: self.slot }),
                ..self
            }
        }
    }

    /// The enumeration after the reply to the request that was due.
    pub open spec fn after_reply(self, reply: Reply) -> EnumerationView {
        match (self.phase, reply) {
            (EnumerationPhase::Done, _) => self,
            (EnumerationPhase::Failed(_), _) => self,
            (_, Err(_)) => self.after_failure(),
            (EnumerationPhase::Root, Ok(header)) => if header[4] == 0 {
                self.after_failure()
            } else {
                EnumerationView { phase: EnumerationPhase::Count { set_index: header[4] }, ..self }
            },
            (EnumerationPhase::Count { set_index }, Ok(header)) => EnumerationView {
                features: feature_table(set_index, Seq::empty()),
                phase: if header[4] == 0 {
                    EnumerationPhase::Done
                } else {
                    EnumerationPhase::Entry { set_index, count: header[4], position: 1 }
                },
                ..self
            },
            (EnumerationPhase::Entry { set_index, count, position }, Ok(header)) => {
                let id = big_endian(header[4], header[5]);
                EnumerationView {
                    features: if id == 0 {
                        self.features
                    } else {
                        self.features.insert(id, position)
                    },
                    phase: if position < count {
                        EnumerationPhase::Entry {
                            set_index,
                            count,
                            position: (position + 1) as u8,
                        }
                    } else {
                        EnumerationPhase::Done
                    },
                    ..self
                }
            },
        }
    }

    /// The enumeration after a series of replies.
    pub open spec fn after_replies(self, replies: Seq<Reply>) -> EnumerationView
        decreases replies.len(),
    {
        if replies.len() == 0 {
            self
        } else {
            self.after_replies(replies.drop_last()).after_reply(replies.last())
        }
    }

    /// At most this many replies are still asked for.
    pub open spec fn replies_left(self) -> nat {
        let this_attempt: int = match self.phase {
            EnumerationPhase::Root => 257,
            EnumerationPhase::Count { .. } => 256,
            EnumerationPhase::Entry { count, position, .. } => count - position + 1,
            _ => 0,
        };
        if self.over() {
            0
        } else {
            ((ENUM_ATTEMPTS - 1 - self.attempt) * 257 + this_attempt) as nat
        }
    }
}

impl Enumeration {
    /// Start enumerating the features of the device at `slot`.
    pub fn start(slot: u8) -> (enumeration: Enumeration)
        ensures
            enumeration@ == EnumerationView::start(slot),
            enumeration@.wf(),
    {
        Enumeration {
            slot,
            attempt: 0,
            features: HashMap::new(),
            phase: EnumerationPhase::Root,
        }
    }

    /// The request that is due, if any.
    pub fn ask(&self) -> (ask: Option<Ask>)
        ensures
            ask == self@.ask(),
    {
        match self.phase {
            EnumerationPhase::Root => {
                let pause_ms: u64 = if self.attempt > 0 {
                    RETRY_DELAY_MS
                } else {
                    0
                };
                Some(Ask { msg: get_feature(self.slot, FEATURE_SET), pause_ms })
            },
            EnumerationPhase::Count { set_index } => Some(
                Ask { msg: get_feature_count(self.slot, set_index), pause_ms: 0 },
            ),
            EnumerationPhase::Entry { set_index, position, .. } => Some(
                Ask { msg: get_feature_id(self.slot, set_index, position), pause_ms: 0 },
            ),
            _ => None,
        }
    }

    fn fail(&mut self)
        ensures
            final(self)@ == old(self)@.after_failure(),
    {
        if self.attempt < ENUM_ATTEMPTS - 1 {
            self.attempt = self.attempt + 1;
            self.features = HashMap::new();
            self.phase = EnumerationPhase::Root;
        } else {
            self.phase =
            EnumerationPhase::Failed(HidError::EnumerationFailed { slot: self.slot });
        }
    }

    /// The reply to the request that was due has come, or the request failed.
    pub fn on_reply(&mut self, reply: Reply)
        ensures
            final(self)@ == old(self)@.after_reply(reply),
            old(self)@.wf() ==> final(self)@.wf(),
    {
        match (self.phase, reply) {
            (EnumerationPhase::Done, _) => {},
            (EnumerationPhase::Failed(_), _) => {},
            (_, Err(_)) => self.fail(),
            (EnumerationPhase::Root, Ok(header)) => {
                if header[4] == 0 {
                    self.fail();
                } else {
                    self.phase = EnumerationPhase::Count { set_index: header[4] };
                }
            },
            (EnumerationPhase::Count { set_index }, Ok(header)) => {
                let count: u8 = header[4];
                self.features = HashMap::new();
                self.features.insert(FEATURE_SET, set_index);
                self.phase =
                if count == 0 {
                    EnumerationPhase::Done
                } else {
                    EnumerationPhase::Entry { set_index, count, position: 1 }
                };
            },
            (EnumerationPhase::Entry { set_index, count, position }, Ok(header)) => {
                let feature_id: u16 = join_bytes(header[4], header[5]);
                if feature_id != 0 {
                    self.features.insert(feature_id, position);
                }
                self.phase =
                if position < count {
                    EnumerationPhase::Entry { set_index, count, position: position + 1 }
                } else {
                    EnumerationPhase::Done
                };
            },
        }
    }
}

/// The ids that a series of entry replies carries.
pub open spec fn ids_of(entries: Seq<[u8; 7]>) -> Seq<u16> {
    entries.map_values(|header: [u8; 7]| big_endian(header[4], header[5]))
}

/// The replies of a device that answers every request: IRoot's, the count, and one
/// for each entry.
pub open spec fn good_replies(root: [u8; 7], count: [u8; 7], entries: Seq<[u8; 7]>) -> Seq<Reply> {
    seq![Ok::<[u8; 7], HidError>(root), Ok::<[u8; 7], HidError>(count)] + entries.map_values(
        |header: [u8; 7]| Ok::<[u8; 7], HidError>(header),
    )
}

/// A device that answers every request is enumerated in one attempt: the result is
/// the table of the ids it lists, whichever attempt it is.
pub proof fn law_answered_enumeration(
    start: EnumerationView,
    root: [u8; 7],
    count: [u8; 7],
    entries: Seq<[u8; 7]>,
)
    requires
        start.phase is Root,
        root[4] != 0,
        entries.len() <= count[4],
    ensures
        start.after_replies(good_replies(root, count, entries)) == (EnumerationView {
            slot: start.slot,
            attempt: start.attempt,
            features: feature_table(root[4], ids_of(entries)),
            phase: if entries.len() < count[4] {
                EnumerationPhase::Entry {
                    set_index: root[4],
                    count: count[4],
                    position: (entries.len() + 1) as u8,
                }
            } else {
                EnumerationPhase::Done
            },
        }),
    decreases entries.len(),
{
    let replies = good_replies(root, count, entries);
    if entries.len() == 0 {
        let first = seq![Ok::<[u8; 7], HidError>(root)];
        assert(replies.drop_last() =~= first);
        assert(first.drop_last() =~= Seq::<Reply>::empty());
        assert(start.after_replies(Seq::empty()) == start);
        assert(start.after_replies(first) == start.after_reply(Ok(root)));
        assert(ids_of(entries) =~= Seq::<u16>::empty());
        assert(replies.last() == Ok::<[u8; 7], HidError>(count));
    } else {
        let before = entries.drop_last();
        law_answered_enumeration(start, root, count, before);
        assert(replies.drop_last() =~= good_replies(root, count, before));
        assert(replies.last() == Ok::<[u8; 7], HidError>(entries.last()));
        assert(ids_of(entries).drop_last() =~= ids_of(before));
        assert(ids_of(entries).last() == big_endian(entries.last()[4], entries.last()[5]));
        let mid = start.after_replies(good_replies(root, count, before));
        assert(start.after_replies(replies) == mid.after_reply(Ok(entries.last())));
    }
}

/// Every reply brings an enumeration closer to its end, so it ends after at most
/// three attempts of 257 requests, and it asks for a reply exactly until then.
pub proof fn law_enumeration_progress(view: EnumerationView, reply: Reply)
    requires
        view.wf(),
    ensures
        view.after_reply(reply).wf(),
        !view.over() ==> view.after_reply(reply).replies_left() < view.replies_left(),
        view.replies_left() <= 3 * 257,
        view.over() <==> view.ask() is None,
        view.over() ==> view.after_reply(reply) == view,
{
}

/// A request that fails ends the attempt: what was found is dropped and the next
/// attempt starts over after a pause, until the attempts are used up.
pub proof fn law_failed_attempt(view: EnumerationView, err: HidError)
    requires
        view.wf(),
        !view.over(),
    ensures
        view.attempt + 1 < ENUM_ATTEMPTS ==> view.after_reply(Err(err)) == (EnumerationView {
            attempt: (view.attempt + 1) as u8,
            ..EnumerationView::start(view.slot)
        }),
        view.attempt + 1 < ENUM_ATTEMPTS ==> view.after_reply(Err(err)).ask() == Some(
            Ask { msg: feature_msg(view.slot, FEATURE_SET), pause_ms: RETRY_DELAY_MS },
        ),
        view.attempt + 1 == ENUM_ATTEMPTS ==> view.after_reply(Err(err)).phase
            == EnumerationPhase::Failed(HidError::EnumerationFailed { slot: view.slot }),
{
}

/// The table of a device: an id that it lists is found at its last position, counted
/// from 1; one that it does not list is not found, but for IFeatureSet, which stands
/// where IRoot told; and zero is no id.
pub proof fn law_table_by_positions(set_index: u8, ids: Seq<u16>, p: int, id: u16)
    requires
        ids.len() <= 255,
    ensures
        0 <= p < ids.len() && ids[p] == id && id != 0 && (forall|q: int|
            p < q < ids.len() ==> #[trigger] ids[q] != id) ==> feature_table(
            set_index,
            ids,
        ).contains_key(id) && feature_table(set_index, ids)[id] == p + 1,
        !ids.contains(id) && id != 0x0001 ==> !feature_table(set_index, ids).contains_key(id),
        !ids.contains(0x0001) ==> feature_table(set_index, ids).contains_key(0x0001)
            && feature_table(set_index, ids)[0x0001] == set_index,
        !feature_table(set_index, ids).contains_key(0),
    decreases ids.len(),
{
    if ids.len() > 0 {
        let before = ids.drop_last();
        law_table_by_positions(set_index, before, p, id);
        assert(ids.contains(ids.last()));
        assert forall|x: u16| !ids.contains(x) implies !(#[trigger] before.contains(x)) by {
            if before.contains(x) {
                let k = choose|k: int| 0 <= k < before.len() && before[k] == x;
                assert(ids[k] == x);
            }
        }
        if 0 <= p < ids.len() - 1 && ids[p] == id && (forall|q: int|
            p < q < ids.len() ==> #[trigger] ids[q] != id) {
            assert(ids[ids.len() - 1] != id);
            assert(before[p] == id);
            assert forall|q: int| p < q < before.len() implies #[trigger] before[q] != id by {
                assert(ids[q] != id);
            }
        }
    }
}

/// What an enumeration asks: IRoot for feature 0x0001, then function 0 of IFeatureSet for
/// the number of features, then function 1 for each position in turn. Only the first
/// request of a later attempt waits, for 100 ms.
pub proof fn law_enumeration_requests(view: EnumerationView)
    ensures
        view.phase is Root ==> view.ask() is Some && view.ask()->0.msg == feature_msg(
            view.slot,
            0x0001,
        ) && view.ask()->0.pause_ms == (if view.attempt == 0 {
            0u64
        } else {
            100u64
        }),
        view.phase matches EnumerationPhase::Count { set_index } ==> view.ask() == Some(
            Ask { msg: request_msg(view.slot, set_index, 0, 0), pause_ms: 0 },
        ),
        view.phase matches EnumerationPhase::Entry { set_index, count, position } ==> view.ask()
            == Some(Ask { msg: request_msg(view.slot, set_index, 1, position), pause_ms: 0 }),
{
}

/// A device without IFeatureSet (its index is 0) fails the attempt like one that does not
/// answer.
pub proof fn law_missing_feature_set_fails(view: EnumerationView, header: [u8; 7], err: HidError)
    requires
        view.phase is Root,
    ensures
        header[4] == 0 ==> view.after_reply(Ok(header)) == view.after_reply(Err(err)),
        header[4] != 0 ==> view.after_reply(Ok(header)) == (EnumerationView {
            phase: EnumerationPhase::Count { set_index: header[4] },
            ..view
        }),
{
}

/// An enumeration is attempted three times, from the start, and fails with the slot it is
/// about.
pub proof fn law_three_attempts(slot: u8, a: HidError, b: HidError, c: HidError)
    ensures
        EnumerationView::start(slot).slot == slot,
        EnumerationView::start(slot).phase is Root,
        EnumerationView::start(slot).after_reply(Err(a)).phase is Root,
        EnumerationView::start(slot).after_reply(Err(a)).after_reply(Err(b)).phase is Root,
        EnumerationView::start(slot).after_reply(Err(a)).after_reply(Err(b)).after_reply(
            Err(c),
        ).phase == EnumerationPhase::Failed(HidError::EnumerationFailed { slot }),
{
}

} // verus!
