//! The slots of a receiver.

use std::collections::BTreeSet;
use vstd::prelude::*;

verus! {

broadcast use {vstd::std_specs::btree::group_btree_axioms, vstd::laws_cmp::group_laws_cmp};

/// Highest device slot a receiver can pair (Unifying supports 6).
pub const MAX_SLOT: u8 = 6;

/// A slot that a receiver can have.
pub open spec fn valid_slot(slot: u8) -> bool {
    1 <= slot <= MAX_SLOT
}

/// Only slots that a receiver can have.
pub open spec fn valid_slots(slots: Set<u8>) -> bool {
    forall|slot: u8| #[trigger] slots.contains(slot) ==> valid_slot(slot)
}

/// A set of slots.
#[derive(Debug)]
pub struct SlotSet {
    pub slots: BTreeSet<u8>,
}

impl View for SlotSet {
    type V = Set<u8>;

    open spec fn view(&self) -> Set<u8> {
        self.slots@
    }
}

impl SlotSet {
    /// No slot.
    pub fn new() -> (set: SlotSet)
        ensures
            set@ == Set::<u8>::empty(),
    {
        SlotSet { slots: BTreeSet::new() }
    }

    pub fn contains(&self, slot: u8) -> (found: bool)
        ensures
            found == self@.contains(slot),
    {
        self.slots.contains(&slot)
    }

    /// Add a slot; whether it was new.
    pub fn insert(&mut self, slot: u8) -> (new: bool)
        ensures
            new == !old(self)@.contains(slot),
            final(self)@ == old(self)@.insert(slot),
    {
        self.slots.insert(slot)
    }

    /// Take a slot out; whether it was there.
    pub fn remove(&mut self, slot: u8) -> (found: bool)
        ensures
            found == old(self)@.contains(slot),
            final(self)@ == old(self)@.remove(slot),
    {
        self.slots.remove(&slot)
    }
}

/// A receiver has the slots 1 to 6.
pub proof fn law_slots_of_a_receiver(slot: u8)
    ensures
        valid_slot(slot) <==> slot == 1 || slot == 2 || slot == 3 || slot == 4 || slot == 5 || slot
            == 6,
{
}

} // verus!
