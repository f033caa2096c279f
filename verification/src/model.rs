//! Battery readings and the order they are shown in.

use crate::text::chars_of;
use vstd::prelude::*;

verus! {

#[derive(Clone, Debug, Eq, PartialEq)]
pub struct BatteryState {
    pub device_key: String,
    pub display_name: String,
    pub pid: u16,
    pub device_index: u8,
    pub battery_percent: u8,
    pub is_charging: bool,
}

/// A battery reading as plain values.
pub struct BatteryView {
    pub device_key: Seq<char>,
    pub display_name: Seq<char>,
    pub pid: u16,
    pub device_index: u8,
    pub battery_percent: u8,
    pub is_charging: bool,
}

impl View for BatteryState {
    type V = BatteryView;

    open spec fn view(&self) -> BatteryView {
        BatteryView {
            device_key: self.device_key@,
            display_name: self.display_name@,
            pid: self.pid,
            device_index: self.device_index,
            battery_percent: self.battery_percent,
            is_charging: self.is_charging,
        }
    }
}

/// `a` comes before `b` in the dictionary: at the first character in which they
/// differ `a` has the smaller code point, or `a` is a proper prefix of `b`.
pub open spec fn text_before(a: Seq<char>, b: Seq<char>) -> bool {
    exists|k: int| #[trigger] first_difference(a, b, k) && (k == a.len() || k < b.len() && a[k] < b[k])
}

/// `a` and `b` agree up to position `k`, and differ or end there.
pub open spec fn first_difference(a: Seq<char>, b: Seq<char>, k: int) -> bool {
    &&& 0 <= k <= a.len()
    &&& k <= b.len()
    &&& a.len() != b.len() || k < a.len()
    &&& forall|i: int| 0 <= i < k ==> a[i] == b[i]
    &&& k < a.len() && k < b.len() ==> a[k] != b[k]
}

/// `a` is shown before `b`: by display name, then product id, then device key.
pub open spec fn shown_before(a: BatteryView, b: BatteryView) -> bool {
    ||| text_before(a.display_name, b.display_name)
    ||| a.display_name == b.display_name && a.pid < b.pid
    ||| a.display_name == b.display_name && a.pid == b.pid && text_before(
        a.device_key,
        b.device_key,
    )
}

/// `a` and `b` agree in all that the order looks at.
pub open spec fn same_rank(a: BatteryView, b: BatteryView) -> bool {
    a.display_name == b.display_name && a.pid == b.pid && a.device_key == b.device_key
}

/// No reading is shown before one that stands in front of it.
pub open spec fn in_order(devices: Seq<BatteryState>) -> bool {
    forall|i: int, j: int|
        0 <= i < j < devices.len() ==> !shown_before(#[trigger] devices[j]@, #[trigger] devices[i]@)
}

/// The readings of the same rank as `x`, in their order.
pub open spec fn peers(devices: Seq<BatteryState>, x: BatteryView) -> Seq<BatteryState> {
    devices.filter(|d: BatteryState| same_rank(d@, x))
}

#[derive(Clone, Copy, Debug, PartialEq, Eq, Structural)]
enum Side {
    Before,
    Same,
    After,
}

/// On which side of `b` the text `a` stands.
fn text_side(a: &str, b: &str) -> (side: Side)
    ensures
        side == Side::Before <==> text_before(a@, b@),
        side == Side::Same <==> a@ == b@,
        side == Side::After <==> text_before(b@, a@),
{
    let x: Vec<char> = chars_of(a);
    let y: Vec<char> = chars_of(b);
    let mut i: usize = 0;
    while i < x.len() && i < y.len()
        invariant
            x@ == a@,
            y@ == b@,
            i <= x@.len(),
            i <= y@.len(),
            forall|j: int| 0 <= j < i ==> a@[j] == b@[j],
        decreases x@.len() - i,
    {
        if x[i] != y[i] {
            proof {
                assert(first_difference(a@, b@, i as int));
                assert(first_difference(b@, a@, i as int));
                law_text_order(a@, b@);
            }
            return if x[i] < y[i] {
                Side::Before
            } else {
                Side::After
            };
        }
        i += 1;
    }
    proof {
        law_text_order(a@, b@);
        if x@.len() != y@.len() {
            assert(first_difference(a@, b@, i as int));
            assert(first_difference(b@, a@, i as int));
        } else {
            assert(a@ =~= b@);
        }
    }
    if x.len() < y.len() {
        Side::Before
    } else if x.len() > y.len() {
        Side::After
    } else {
        Side::Same
    }
}

/// Whether `a` is shown before `b`.
pub fn is_shown_before(a: &BatteryState, b: &BatteryState) -> (before: bool)
    ensures
        before == shown_before(a@, b@),
{
    proof {
        law_text_order(a.display_name@, b.display_name@);
        law_text_order(a.device_key@, b.device_key@);
    }
    match text_side(a.display_name.as_str(), b.display_name.as_str()) {
        Side::Before => true,
        Side::After => false,
        Side::Same => {
            if a.pid != b.pid {
                a.pid < b.pid
            } else {
                text_side(a.device_key.as_str(), b.device_key.as_str()) == Side::Before
            }
        },
    }
}

/// What one pass over all receivers found.
#[derive(Clone, Debug)]
pub struct PollResult {
    pub devices: Vec<BatteryState>,
    pub errors: Vec<String>,
}

impl Default for PollResult {
    fn default() -> (result: PollResult)
        ensures
            result.devices@ == Seq::<BatteryState>::empty(),
            result.errors@ == Seq::<String>::empty(),
    {
        PollResult { devices: Vec::new(), errors: Vec::new() }
    }
}

impl PollResult {
    /// Sort the readings by display name, then product id, then device key. The
    /// sort is stable: readings that agree in all three keep their order.
    pub fn sort_devices(&mut self)
        ensures
            final(self).errors == old(self).errors,
            final(self).devices@.to_multiset() == old(self).devices@.to_multiset(),
            in_order(final(self).devices@),
            forall|x: BatteryView| #[trigger]
                peers(final(self).devices@, x) == peers(old(self).devices@, x),
    {
        let ghost before = self.devices@;
        let mut i: usize = 0;
        while i < self.devices.len()
            invariant
                i <= self.devices@.len(),
                self.errors == old(self).errors,
                self.devices@.len() == before.len(),
                self.devices@.to_multiset() == before.to_multiset(),
                in_order(self.devices@.take(i as int)),
                forall|x: BatteryView| #[trigger] peers(self.devices@, x) == peers(before, x),
            decreases before.len() - i,
        {
            let ghost current = self.devices@;
            let mut at: usize = i;
            while at > 0 && is_shown_before(&self.devices[i], &self.devices[at - 1])
                invariant
                    at <= i < self.devices@.len(),
                    self.devices@ == current,
                    self.errors == old(self).errors,
                    forall|j: int| at <= j < i ==> shown_before(current[i as int]@, #[trigger] current[j]@),
                decreases at,
            {
                at -= 1;
            }
            let item: BatteryState = self.devices.remove(i);
            self.devices.insert(at, item);
            proof {
                lemma_moved_back(current, i as int, at as int, self.devices@);
                assert(in_order(current.take(i as int)));
                lemma_inserted_in_order(current, i as int, at as int, self.devices@);
            }
            i += 1;
        }
        assert(self.devices@.take(i as int) =~= self.devices@);
    }
}

/// Moving an entry back over entries of other ranks keeps the entries and the order
/// within each rank.
proof fn lemma_moved_back(s: Seq<BatteryState>, i: int, at: int, t: Seq<BatteryState>)
    requires
        0 <= at <= i < s.len(),
        t == s.remove(i).insert(at, s[i]),
        forall|j: int| at <= j < i ==> shown_before(s[i]@, #[trigger] s[j]@),
    ensures
        t.len() == s.len(),
        t.to_multiset() == s.to_multiset(),
        forall|x: BatteryView| #[trigger] peers(t, x) == peers(s, x),
{
    broadcast use vstd::seq_lib::group_to_multiset_ensures;

    assert(s.to_multiset().contains(s[i]));
    assert(s.to_multiset().remove(s[i]).insert(s[i]) =~= s.to_multiset());
    let head = s.subrange(0, at);
    let middle = s.subrange(at, i);
    let one = seq![s[i]];
    let tail = s.subrange(i + 1, s.len() as int);
    assert(s =~= head + middle + one + tail);
    assert(t =~= head + one + middle + tail);
    assert forall|x: BatteryView| #[trigger] peers(t, x) == peers(s, x) by {
        let pred = |d: BatteryState| same_rank(d@, x);
        Seq::filter_distributes_over_add(head + middle + one, tail, pred);
        Seq::filter_distributes_over_add(head + middle, one, pred);
        Seq::filter_distributes_over_add(head, middle, pred);
        Seq::filter_distributes_over_add(head + one + middle, tail, pred);
        Seq::filter_distributes_over_add(head + one, middle, pred);
        Seq::filter_distributes_over_add(head, one, pred);
        if pred(s[i]) {
            assert forall|j: int| 0 <= j < middle.len() implies !pred(#[trigger] middle[j]) by {
                assert(middle[j] == s[at + j]);
                law_text_order(s[i].display_name@, s[at + j].display_name@);
                law_text_order(s[i].device_key@, s[at + j].device_key@);
            }
            lemma_filter_none(middle, pred);
        } else {
            lemma_filter_none(one, pred);
        }
        assert(peers(t, x) =~= peers(s, x));
    }
}

proof fn lemma_filter_none(s: Seq<BatteryState>, pred: spec_fn(BatteryState) -> bool)
    requires
        forall|i: int| 0 <= i < s.len() ==> !pred(#[trigger] s[i]),
    ensures
        s.filter(pred) == Seq::<BatteryState>::empty(),
    decreases s.len(),
{
    reveal(Seq::filter);
    if s.len() > 0 {
        assert(!pred(s.last()));
        assert forall|i: int| 0 <= i < s.drop_last().len() implies !pred(
            #[trigger] s.drop_last()[i],
        ) by {
            assert(s.drop_last()[i] == s[i]);
        }
        lemma_filter_none(s.drop_last(), pred);
    }
}

/// An entry moved back to just behind the last one that it is not shown before
/// extends the ordered part by one.
proof fn lemma_inserted_in_order(s: Seq<BatteryState>, i: int, at: int, t: Seq<BatteryState>)
    requires
        0 <= at <= i < s.len(),
        t == s.remove(i).insert(at, s[i]),
        in_order(s.take(i)),
        forall|j: int| at <= j < i ==> shown_before(s[i]@, #[trigger] s[j]@),
        at > 0 ==> !shown_before(s[i]@, s[at - 1]@),
    ensures
        in_order(t.take(i + 1)),
{
    let u = t.take(i + 1);
    let v = s.take(i);
    assert forall|j: int, k: int| 0 <= j < k < u.len() implies !shown_before(
        #[trigger] u[k]@,
        #[trigger] u[j]@,
    ) by {
        if j < at && k < at {
            assert(u[j] == v[j] && u[k] == v[k]);
        } else if j < at && k == at {
            assert(u[j] == v[j] && u[k] == s[i] && v[at - 1] == s[at - 1]);
            assert(j < at - 1 ==> !shown_before(v[at - 1]@, v[j]@));
            law_shown_order(s[i]@, v[at - 1]@, v[j]@);
        } else if j < at {
            assert(u[j] == v[j] && u[k] == v[k - 1]);
        } else if j == at {
            assert(u[j] == s[i] && u[k] == v[k - 1] && v[k - 1] == s[k - 1]);
            law_shown_order(v[k - 1]@, s[i]@, v[k - 1]@);
        } else {
            assert(u[j] == v[j - 1] && u[k] == v[k - 1]);
        }
    }
}

/// The order of texts is total: of two texts exactly one comes before the other,
/// unless they are equal.
pub proof fn law_text_order(a: Seq<char>, b: Seq<char>)
    ensures
        text_before(a, b) || text_before(b, a) || a == b,
        !(text_before(a, b) && text_before(b, a)),
        text_before(a, b) ==> a != b,
{
    if a != b {
        let k = lemma_first_difference(a, b, 0);
        assert(first_difference(a, b, k) && first_difference(b, a, k));
    }
    if text_before(a, b) && text_before(b, a) {
        let j = choose|k: int| #[trigger]
            first_difference(a, b, k) && (k == a.len() || k < b.len() && a[k] < b[k]);
        let k = choose|k: int| #[trigger]
            first_difference(b, a, k) && (k == b.len() || k < a.len() && b[k] < a[k]);
        assert(j == k);
    }
}

proof fn lemma_first_difference(a: Seq<char>, b: Seq<char>, from: int) -> (k: int)
    requires
        a != b,
        0 <= from <= a.len(),
        from <= b.len(),
        forall|i: int| 0 <= i < from ==> a[i] == b[i],
    ensures
        first_difference(a, b, k),
    decreases a.len() - from,
{
    if from < a.len() && from < b.len() && a[from] == b[from] {
        lemma_first_difference(a, b, from + 1)
    } else {
        if from == a.len() && from == b.len() {
            assert(a =~= b);
        }
        from
    }
}

/// The order of texts is transitive.
pub proof fn law_text_transitive(a: Seq<char>, b: Seq<char>, c: Seq<char>)
    requires
        text_before(a, b),
        text_before(b, c),
    ensures
        text_before(a, c),
{
    let j = choose|k: int| #[trigger]
        first_difference(a, b, k) && (k == a.len() || k < b.len() && a[k] < b[k]);
    let k = choose|k: int| #[trigger]
        first_difference(b, c, k) && (k == b.len() || k < c.len() && b[k] < c[k]);
    let m = if j < k {
        j
    } else {
        k
    };
    assert(first_difference(a, c, m));
}

/// The order of readings: a reading is not shown before itself, two readings are
/// not both shown before each other, and "not shown before" is transitive.
pub proof fn law_shown_order(a: BatteryView, b: BatteryView, c: BatteryView)
    ensures
        !(shown_before(a, b) && shown_before(b, a)),
        !shown_before(a, b) && !shown_before(b, c) ==> !shown_before(a, c),
        !shown_before(a, b) && !shown_before(b, a) ==> same_rank(a, b),
{
    law_text_order(a.display_name, b.display_name);
    law_text_order(b.display_name, c.display_name);
    law_text_order(a.display_name, c.display_name);
    law_text_order(a.device_key, b.device_key);
    law_text_order(b.device_key, c.device_key);
    law_text_order(a.device_key, c.device_key);
    if text_before(c.display_name, b.display_name) && text_before(b.display_name, a.display_name) {
        law_text_transitive(c.display_name, b.display_name, a.display_name);
    }
    if text_before(c.device_key, b.device_key) && text_before(b.device_key, a.device_key) {
        law_text_transitive(c.device_key, b.device_key, a.device_key);
    }
}

/// What decides the order: the display name where it differs, by the first character in
/// which it does (a name goes before a longer one that it starts); else the smaller
/// product id; else the device key, in the same way. Nothing else matters.
pub proof fn law_order_by_fields(a: BatteryView, b: BatteryView, k: int)
    requires
        0 <= k,
    ensures
        k < a.display_name.len() && k < b.display_name.len() && a.display_name.take(k)
            == b.display_name.take(k) && a.display_name[k] < b.display_name[k] ==> shown_before(
            a,
            b,
        ),
        a.display_name.len() < b.display_name.len() && b.display_name.take(
            a.display_name.len() as int,
        ) == a.display_name ==> shown_before(a, b),
        a.display_name == b.display_name && a.pid < b.pid ==> shown_before(a, b),
        a.display_name == b.display_name && a.pid == b.pid && k < a.device_key.len() && k
            < b.device_key.len() && a.device_key.take(k) == b.device_key.take(k) && a.device_key[k]
            < b.device_key[k] ==> shown_before(a, b),
        a.display_name == b.display_name && a.pid == b.pid && a.device_key.len()
            < b.device_key.len() && b.device_key.take(a.device_key.len() as int) == a.device_key
            ==> shown_before(a, b),
        same_rank(a, b) <==> a.display_name == b.display_name && a.pid == b.pid && a.device_key
            == b.device_key,
        same_rank(a, b) ==> !shown_before(a, b),
{
    lemma_before_at(a.display_name, b.display_name, k);
    lemma_before_at(a.device_key, b.device_key, k);
    law_text_order(a.display_name, b.display_name);
    law_text_order(a.device_key, b.device_key);
}

proof fn lemma_before_at(a: Seq<char>, b: Seq<char>, k: int)
    requires
        0 <= k,
    ensures
        k < a.len() && k < b.len() && a.take(k) == b.take(k) && a[k] < b[k] ==> text_before(a, b),
        a.len() < b.len() && b.take(a.len() as int) == a ==> text_before(a, b),
{
    if k < a.len() && k < b.len() && a.take(k) == b.take(k) && a[k] < b[k] {
        assert forall|i: int| 0 <= i < k implies a[i] == b[i] by {
            assert(a.take(k)[i] == b.take(k)[i]);
        }
        assert(first_difference(a, b, k));
    }
    if a.len() < b.len() && b.take(a.len() as int) == a {
        assert forall|i: int| 0 <= i < a.len() implies a[i] == b[i] by {
            assert(b.take(a.len() as int)[i] == b[i]);
        }
        assert(first_difference(a, b, a.len() as int));
    }
}

/// Sorted readings stand in the order of their names and, within a name, of their product
/// ids; readings that agree in all three fields are peers, and nothing else is.
pub proof fn law_sorted_readings(devices: Seq<BatteryState>, i: int, j: int, x: BatteryView)
    requires
        in_order(devices),
        0 <= i < j < devices.len(),
    ensures
        devices[i]@.display_name == devices[j]@.display_name || text_before(
            devices[i]@.display_name,
            devices[j]@.display_name,
        ),
        devices[i]@.display_name == devices[j]@.display_name ==> devices[i]@.pid <= devices[j]@.pid,
        devices[i]@.display_name == devices[j]@.display_name && devices[i]@.pid == devices[j]@.pid
            ==> devices[i]@.device_key == devices[j]@.device_key || text_before(
            devices[i]@.device_key,
            devices[j]@.device_key,
        ),
        peers(devices, x) == devices.filter(
            |d: BatteryState|
                d.display_name@ == x.display_name && d.pid == x.pid && d.device_key@
                    == x.device_key,
        ),
{
    let a = devices[i]@;
    let b = devices[j]@;
    assert(!shown_before(b, a));
    law_text_order(a.display_name, b.display_name);
    law_text_order(a.device_key, b.device_key);
    let direct = |d: BatteryState|
        d.display_name@ == x.display_name && d.pid == x.pid && d.device_key@ == x.device_key;
    let ranked = |d: BatteryState| same_rank(d@, x);
    assert(direct =~= ranked);
}

} // verus!
