//! Display names of devices.

use crate::text::{law_lowered, lower_chars, lower_text};
use vstd::prelude::*;

verus! {

/// Equal but for the case of the letters `A` to `Z`.
pub open spec fn same_name(a: Seq<char>, b: Seq<char>) -> bool {
    lower_text(a) == lower_text(b)
}

/// The entry of `table` for the name `raw`: the first whose key is the same name.
pub open spec fn override_for(table: Seq<(&str, &str)>, raw: Seq<char>) -> Option<Seq<char>>
    decreases table.len(),
{
    if table.len() == 0 {
        None
    } else if same_name(raw, table[0].0@) {
        Some(table[0].1@)
    } else {
        override_for(table.drop_first(), raw)
    }
}

fn equal_chars(a: &Vec<char>, b: &Vec<char>) -> (equal: bool)
    ensures
        equal == (a@ == b@),
{
    if a.len() != b.len() {
        return false;
    }
    let mut i: usize = 0;
    while i < a.len()
        invariant
            i <= a@.len() == b@.len(),
            forall|j: int| 0 <= j < i ==> a@[j] == b@[j],
        decreases a@.len() - i,
    {
        if a[i] != b[i] {
            return false;
        }
        i += 1;
    }
    assert(a@ =~= b@);
    true
}

/// The display name that `table` has for `raw`, or else `raw`.
pub fn corrected_name(table: &[(&str, &str)], raw: &str) -> (name: String)
    ensures
        name@ == match override_for(table@, raw@) {
            Some(display) => display,
            None => raw@,
        },
{
    let wanted: Vec<char> = lower_chars(raw);
    let mut i: usize = 0;
    assert(table@.skip(0) =~= table@);
    while i < table.len()
        invariant
            i <= table@.len(),
            wanted@ == lower_text(raw@),
            override_for(table@, raw@) == override_for(table@.skip(i as int), raw@),
        decreases table@.len() - i,
    {
        let (key, display) = table[i];
        assert(table@.skip(i as int)[0] == table@[i as int]);
        assert(table@.skip(i as int).drop_first() =~= table@.skip(i + 1));
        if equal_chars(&wanted, &lower_chars(key)) {
            return display.to_owned();
        }
        i += 1;
    }
    raw.to_owned()
}

/// Map a raw device name from HID++ feature 0x0005 to a display name.
///
/// Logitech devices report their marketing name directly over HID++ (feature
/// 0x0005, DEVICE_NAME_AND_TYPE), so the raw name is already what is shown. The
/// table is for the rare device that reports an internal codename or an awkward
/// abbreviation, as `("Raw HID Name", "Nice Display Name")`; none is known.
pub fn display_name(raw: &str) -> (name: String)
    ensures
        name@ == raw@,
{
    let overrides: [(&str, &str); 0] = [];
    corrected_name(&overrides, raw)
}

/// Two names are the same exactly where they differ in no more than the case of the
/// letters `A` to `Z`, character by character.
pub proof fn law_same_name(a: Seq<char>, b: Seq<char>)
    ensures
        same_name(a, b) <==> a.len() == b.len() && forall|i: int|
            0 <= i < a.len() ==> same_letter(#[trigger] a[i], b[i]),
{
    if same_name(a, b) {
        assert(lower_text(a).len() == lower_text(b).len());
        assert forall|i: int| 0 <= i < a.len() implies same_letter(#[trigger] a[i], b[i]) by {
            law_lowered(a, i);
            law_lowered(b, i);
            assert(lower_text(a)[i] == lower_text(b)[i]);
        }
    }
    if a.len() == b.len() && forall|i: int|
        0 <= i < a.len() ==> same_letter(#[trigger] a[i], b[i]) {
        assert forall|i: int| 0 <= i < a.len() implies lower_text(a)[i] == lower_text(b)[i] by {
            law_lowered(a, i);
            law_lowered(b, i);
            assert(same_letter(a[i], b[i]));
        }
        assert(lower_text(a) =~= lower_text(b));
    }
}

/// Equal, or the same letter of `A` to `Z` in the other case.
pub open spec fn same_letter(a: char, b: char) -> bool {
    ||| a == b
    ||| 'A' <= a <= 'Z' && b as int == a as int + 32
    ||| 'A' <= b <= 'Z' && a as int == b as int + 32
}

/// The entry that counts is the first whose key is the name, whatever its case; where none
/// is, there is none.
pub proof fn law_first_override_counts(table: Seq<(&str, &str)>, raw: Seq<char>, k: int)
    ensures
        0 <= k < table.len() && same_name(raw, table[k].0@) && (forall|j: int|
            0 <= j < k ==> !same_name(raw, (#[trigger] table[j]).0@)) ==> override_for(table, raw)
            == Some(table[k].1@),
        (forall|j: int| 0 <= j < table.len() ==> !same_name(raw, (#[trigger] table[j]).0@))
            ==> override_for(table, raw) is None,
    decreases table.len(),
{
    if table.len() > 0 {
        let rest = table.drop_first();
        law_first_override_counts(rest, raw, k - 1);
        assert(forall|j: int| 0 <= j < rest.len() ==> #[trigger] rest[j] == table[j + 1]);
        if k > 0 && k < table.len() {
            assert(rest[k - 1] == table[k]);
        }
    }
}

} // verus!
