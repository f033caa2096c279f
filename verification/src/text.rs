//! Text: the numbers, names and literal pieces that keys, labels and messages
//! are made of.

use vstd::arithmetic::power::pow;
use vstd::prelude::*;

verus! {

/// `String::push` of std: appends one character at the end and changes nothing
/// else.
pub assume_specification[ String::push ](s: &mut String, c: char)
    ensures
        final(s)@ == old(s)@.push(c),
;

/// The first letter used for the digits above nine: upper-case hexadecimal.
pub const UPPER: char = 'A';

/// The first letter used for the digits above nine: lower-case hexadecimal.
pub const LOWER: char = 'a';

/// The digit character for `d` (0 to 15), with letters from `ten` on.
pub open spec fn digit_char(d: int, ten: char) -> char {
    if d < 10 {
        ('0' as int + d) as char
    } else {
        (ten as int + (d - 10)) as char
    }
}

/// The `width` lowest hexadecimal digits of `n`, most significant first.
pub open spec fn hex_digits(n: nat, width: nat, ten: char) -> Seq<char>
    decreases width,
{
    if width == 0 {
        Seq::empty()
    } else {
        hex_digits(n / 16, (width - 1) as nat, ten).push(digit_char((n % 16) as int, ten))
    }
}

/// `n` in decimal, without leading zeros.
pub open spec fn decimal(n: nat) -> Seq<char>
    decreases n,
{
    if n < 10 {
        seq![digit_char(n as int, UPPER)]
    } else {
        decimal(n / 10).push(digit_char((n % 10) as int, UPPER))
    }
}

/// `c` with the letters `A` to `Z` turned into `a` to `z`.
pub open spec fn lower_char(c: char) -> char {
    if 'A' <= c <= 'Z' {
        (c as int + 32) as char
    } else {
        c
    }
}

/// `s` with the letters `A` to `Z` turned into `a` to `z`.
pub open spec fn lower_text(s: Seq<char>) -> Seq<char> {
    s.map_values(|c: char| lower_char(c))
}

/// `needle` stands in `s` at position `at`.
pub open spec fn occurs_at(s: Seq<char>, needle: Seq<char>, at: int) -> bool {
    &&& 0 <= at
    &&& at + needle.len() <= s.len()
    &&& s.subrange(at, at + needle.len()) == needle
}

/// `needle` stands somewhere in `s`.
pub open spec fn occurs_in(s: Seq<char>, needle: Seq<char>) -> bool {
    exists|at: int| #[trigger] occurs_at(s, needle, at)
}

/// The digit character for `d`.
pub fn digit(d: u8, ten: char) -> (c: char)
    requires
        d < 16,
        ten == UPPER || ten == LOWER,
    ensures
        c == digit_char(d as int, ten),
{
    if d < 10 {
        (48u8 + d) as char
    } else if ten == UPPER {
        (65u8 + (d - 10)) as char
    } else {
        (97u8 + (d - 10)) as char
    }
}

/// Appends the `width` lowest hexadecimal digits of `n`.
pub fn push_hex(s: &mut String, n: u64, width: usize, ten: char)
    requires
        ten == UPPER || ten == LOWER,
    ensures
        final(s)@ == old(s)@ + hex_digits(n as nat, width as nat, ten),
    decreases width,
{
    if width > 0 {
        push_hex(s, n / 16, width - 1, ten);
        s.push(digit((n % 16) as u8, ten));
    }
}

/// Appends `n` in decimal.
pub fn push_decimal(s: &mut String, n: u64)
    ensures
        final(s)@ == old(s)@ + decimal(n as nat),
    decreases n,
{
    if n >= 10 {
        push_decimal(s, n / 10);
    }
    s.push(digit((n % 10) as u8, UPPER));
}

/// `c.to_ascii_lowercase()`.
pub fn to_lower(c: char) -> (r: char)
    ensures
        r == lower_char(c),
{
    if 'A' <= c && c <= 'Z' {
        (c as u8 + 32) as char
    } else {
        c
    }
}

/// The characters of `s`, one by one.
pub fn chars_of(s: &str) -> (r: Vec<char>)
    ensures
        r@ == s@,
{
    let mut r: Vec<char> = Vec::new();
    for c in it: s.chars()
        invariant
            it.seq() == s@,
            r@ == s@.take(it.index() as int),
    {
        r.push(c);
    }
    r
}

/// The characters of `s` with the letters `A` to `Z` turned into `a` to `z`.
pub fn lower_chars(s: &str) -> (r: Vec<char>)
    ensures
        r@ == lower_text(s@),
{
    let mut r: Vec<char> = Vec::new();
    for c in it: s.chars()
        invariant
            it.seq() == s@,
            r@ == lower_text(s@.take(it.index() as int)),
    {
        r.push(to_lower(c));
    }
    r
}

/// Whether `needle` stands in `s` at position `at`.
pub fn stands_at(s: &[char], needle: &[char], at: usize) -> (found: bool)
    ensures
        found == occurs_at(s@, needle@, at as int),
{
    let len: usize = s.len();
    if at > len || needle.len() > len - at {
        return false;
    }
    let mut i: usize = 0;
    while i < needle.len()
        invariant
            i <= needle@.len(),
            len == s@.len(),
            at + needle@.len() <= len,
            forall|j: int| 0 <= j < i ==> s@[at + j] == needle@[j],
        decreases needle@.len() - i,
    {
        if s[at + i] != needle[i] {
            assert(s@.subrange(at as int, at + needle@.len())[i as int] != needle@[i as int]);
            return false;
        }
        i += 1;
    }
    assert(s@.subrange(at as int, at + needle@.len()) =~= needle@);
    true
}

/// Whether `needle` stands somewhere in `s`.
pub fn contains(s: &[char], needle: &str) -> (found: bool)
    ensures
        found == occurs_in(s@, needle@),
{
    let pattern: Vec<char> = chars_of(needle);
    let len: usize = s.len();
    let mut at: usize = 0;
    while at < len
        invariant
            pattern@ == needle@,
            len == s@.len(),
            at <= len,
            forall|k: int| 0 <= k < at ==> !occurs_at(s@, needle@, k),
        decreases len - at,
    {
        if stands_at(s, pattern.as_slice(), at) {
            return true;
        }
        at += 1;
    }
    stands_at(s, pattern.as_slice(), at)
}

/// The pieces of `s` between the separators.
pub open spec fn split_text(s: Seq<char>, separator: char) -> Seq<Seq<char>>
    decreases s.len(),
{
    if s.len() == 0 {
        seq![Seq::empty()]
    } else {
        let before = split_text(s.drop_last(), separator);
        if s.last() == separator {
            before.push(Seq::empty())
        } else {
            before.drop_last().push(before.last().push(s.last()))
        }
    }
}

/// `pieces` with a separator between any two.
pub open spec fn join_text(pieces: Seq<Seq<char>>, separator: Seq<char>) -> Seq<char>
    decreases pieces.len(),
{
    if pieces.len() == 0 {
        Seq::empty()
    } else if pieces.len() == 1 {
        pieces[0]
    } else {
        join_text(pieces.drop_last(), separator) + separator + pieces.last()
    }
}

/// `s` without the occurrences of `needle`, found from left to right.
pub open spec fn without_text(s: Seq<char>, needle: Seq<char>) -> Seq<char>
    decreases s.len(),
{
    if s.len() == 0 || needle.len() == 0 {
        s
    } else if occurs_at(s, needle, 0) {
        without_text(s.skip(needle.len() as int), needle)
    } else {
        seq![s[0]] + without_text(s.skip(1), needle)
    }
}

/// What stands in `s` before the last `c`, or all of `s` where there is none.
pub open spec fn before_last(s: Seq<char>, c: char) -> Seq<char>
    decreases s.len(),
{
    if s.len() == 0 || !s.contains(c) {
        s
    } else if s.last() == c {
        s.drop_last()
    } else {
        before_last(s.drop_last(), c)
    }
}

/// Lines as plain values.
pub open spec fn lines_of(lines: Seq<String>) -> Seq<Seq<char>> {
    lines.map_values(|line: String| line@)
}

/// Pieces of text as plain values.
pub open spec fn texts(pieces: Seq<Vec<char>>) -> Seq<Seq<char>> {
    pieces.map_values(|piece: Vec<char>| piece@)
}

/// The pieces of `s` between the separators.
pub fn split(s: &[char], separator: char) -> (pieces: Vec<Vec<char>>)
    ensures
        texts(pieces@) == split_text(s@, separator),
{
    let mut pieces: Vec<Vec<char>> = Vec::new();
    let mut piece: Vec<char> = Vec::new();
    let mut i: usize = 0;
    let len: usize = s.len();
    assert(texts(pieces@).push(piece@) =~= split_text(s@.take(0), separator));
    while i < len
        invariant
            i <= len,
            len == s@.len(),
            texts(pieces@).push(piece@) == split_text(s@.take(i as int), separator),
        decreases len - i,
    {
        let ghost before = texts(pieces@);
        let ghost under_way = piece@;
        assert(s@.take(i + 1).drop_last() =~= s@.take(i as int));
        assert(before.push(under_way).drop_last() =~= before);
        if s[i] == separator {
            pieces.push(piece);
            piece = Vec::new();
            assert(texts(pieces@) =~= before.push(under_way));
        } else {
            piece.push(s[i]);
        }
        i += 1;
    }
    let ghost before = texts(pieces@);
    let ghost last = piece@;
    pieces.push(piece);
    assert(texts(pieces@) =~= before.push(last));
    assert(s@.take(len as int) =~= s@);
    pieces
}

/// `s` without the occurrences of `needle`.
pub fn without(s: &[char], needle: &[char]) -> (rest: Vec<char>)
    ensures
        rest@ == without_text(s@, needle@),
{
    let width: usize = needle.len();
    let len: usize = s.len();
    let mut rest: Vec<char> = Vec::new();
    let mut i: usize = 0;
    assert(s@.skip(0) =~= s@);
    while i < len
        invariant
            i <= len,
            len == s@.len(),
            width == needle@.len(),
            without_text(s@, needle@) == rest@ + without_text(s@.skip(i as int), needle@),
        decreases len - i,
    {
        let ghost tail = s@.skip(i as int);
        assert(occurs_at(tail, needle@, 0) == occurs_at(s@, needle@, i as int)) by {
            if i + needle@.len() <= s@.len() {
                assert(tail.subrange(0, needle@.len() as int) =~= s@.subrange(
                    i as int,
                    i + needle@.len(),
                ));
            }
        }
        if width > 0 && stands_at(s, needle, i) {
            assert(tail.skip(width as int) =~= s@.skip(i + width));
            i += width;
        } else {
            assert(tail.skip(1) =~= s@.skip(i + 1));
            assert(width == 0 ==> tail =~= seq![tail[0]] + tail.skip(1));
            let ghost kept = rest@;
            rest.push(s[i]);
            assert(rest@ + without_text(tail.skip(1), needle@) =~= kept + (seq![tail[0]]
                + without_text(tail.skip(1), needle@)));
            i += 1;
        }
    }
    assert(s@.skip(i as int) =~= Seq::<char>::empty());
    rest
}

/// What stands in `s` before the last `c`, or all of `s` where there is none.
pub fn cut_at_last(s: &[char], c: char) -> (head: Vec<char>)
    ensures
        head@ == before_last(s@, c),
{
    let len: usize = s.len();
    let mut end: usize = len;
    while end > 0 && s[end - 1] != c
        invariant
            end <= len,
            len == s@.len(),
            forall|i: int| end <= i < len ==> s@[i] != c,
        decreases end,
    {
        end -= 1;
    }
    if end == 0 {
        assert(!s@.contains(c));
        end = len;
        assert(s@.take(len as int) =~= s@);
    } else {
        assert(s@.contains(c)) by {
            assert(s@[end - 1] == c);
        }
        end -= 1;
        proof {
            lemma_before_last(s@, c, end as int);
        }
    }
    let mut head: Vec<char> = Vec::new();
    let mut i: usize = 0;
    while i < end
        invariant
            i <= end <= len,
            len == s@.len(),
            head@ == s@.take(i as int),
        decreases end - i,
    {
        head.push(s[i]);
        i += 1;
    }
    head
}

proof fn lemma_before_last(s: Seq<char>, c: char, k: int)
    requires
        0 <= k < s.len(),
        s[k] == c,
        forall|i: int| k < i < s.len() ==> s[i] != c,
    ensures
        before_last(s, c) == s.take(k),
    decreases s.len(),
{
    assert(s.contains(c));
    if k < s.len() - 1 {
        assert(s.drop_last()[k] == c);
        lemma_before_last(s.drop_last(), c, k);
        assert(s.drop_last().take(k) =~= s.take(k));
    } else {
        assert(s.drop_last() =~= s.take(k));
    }
}

/// The text that a list of characters spells.
pub fn spell(chars: &[char]) -> (text: String)
    ensures
        text@ == chars@,
{
    let mut text: String = String::new();
    let mut i: usize = 0;
    while i < chars.len()
        invariant
            i <= chars@.len(),
            text@ == chars@.take(i as int),
        decreases chars@.len() - i,
    {
        text.push(chars[i]);
        i += 1;
    }
    assert(chars@.take(i as int) =~= chars@);
    text
}

/// `n` in decimal, with a sign where it is negative.
pub open spec fn signed_decimal(n: int) -> Seq<char> {
    if n < 0 {
        "-"@ + decimal((-n) as nat)
    } else {
        decimal(n as nat)
    }
}

/// `s` with spaces in front, up to a length of `width`.
pub open spec fn right_aligned(s: Seq<char>, width: nat) -> Seq<char> {
    Seq::new(
        if s.len() < width {
            (width - s.len()) as nat
        } else {
            0
        },
        |i: int| ' ',
    ) + s
}

/// Bytes as pairs of hexadecimal digits, with a space between any two.
pub open spec fn hex_dump(bytes: Seq<u8>) -> Seq<char> {
    join_text(bytes.map_values(|b: u8| hex_digits(b as nat, 2, UPPER)), seq![' '])
}

/// Appends `n` in decimal, right-aligned.
pub fn push_aligned(s: &mut String, n: i32, width: usize)
    ensures
        final(s)@ == old(s)@ + right_aligned(signed_decimal(n as int), width as nat),
{
    let mut digits: String = String::new();
    if n < 0 {
        digits.append("-");
        push_decimal(&mut digits, (-(n as i64)) as u64);
    } else {
        push_decimal(&mut digits, n as u64);
    }
    assert(digits@ =~= signed_decimal(n as int));
    let len: usize = chars_of(digits.as_str()).len();
    let mut at: usize = len;
    while at < width
        invariant
            len <= at,
            at <= width || at == len,
            s@ == old(s)@ + Seq::new((at - len) as nat, |i: int| ' '),
        decreases width - at,
    {
        s.push(' ');
        at += 1;
    }
    s.append(digits.as_str());
    assert(s@ =~= old(s)@ + right_aligned(signed_decimal(n as int), width as nat));
}

/// Appends the bytes as hexadecimal pairs.
pub fn push_hex_dump(s: &mut String, bytes: &[u8])
    ensures
        final(s)@ == old(s)@ + hex_dump(bytes@),
{
    let ghost pairs = bytes@.map_values(|b: u8| hex_digits(b as nat, 2, UPPER));
    let mut i: usize = 0;
    let len: usize = bytes.len();
    assert(join_text(pairs.take(0), seq![' ']) =~= Seq::<char>::empty());
    while i < len
        invariant
            i <= len,
            len == bytes@.len(),
            pairs == bytes@.map_values(|b: u8| hex_digits(b as nat, 2, UPPER)),
            s@ == old(s)@ + join_text(pairs.take(i as int), seq![' ']),
        decreases len - i,
    {
        let ghost before = s@;
        if i > 0 {
            s.push(' ');
        }
        push_hex(s, bytes[i] as u64, 2, UPPER);
        assert(pairs.take(i + 1).drop_last() =~= pairs.take(i as int));
        assert(s@ =~= old(s)@ + join_text(pairs.take(i + 1), seq![' ']));
        i += 1;
    }
    assert(pairs.take(len as int) =~= pairs);
}

/// Fixed-width hexadecimal is injective: numbers that fit the width and have the
/// same digits are equal.
pub proof fn law_hex_digits_injective(a: nat, b: nat, width: nat, ten: char)
    requires
        ten == UPPER || ten == LOWER,
        a < pow(16, width),
        b < pow(16, width),
        hex_digits(a, width, ten) == hex_digits(b, width, ten),
    ensures
        a == b,
    decreases width,
{
    reveal(pow);
    if width > 0 {
        let shorter = (width - 1) as nat;
        let da = hex_digits(a, width, ten);
        let db = hex_digits(b, width, ten);
        assert(da.last() == db.last());
        assert(da.drop_last() =~= hex_digits(a / 16, shorter, ten));
        assert(db.drop_last() =~= hex_digits(b / 16, shorter, ten));
        law_hex_digits_injective(a / 16, b / 16, shorter, ten);
    }
}

/// Fixed-width hexadecimal has the width it was given.
pub proof fn law_hex_digits_len(n: nat, width: nat, ten: char)
    ensures
        hex_digits(n, width, ten).len() == width,
    decreases width,
{
    if width > 0 {
        law_hex_digits_len(n / 16, (width - 1) as nat, ten);
    }
}

/// Decimal is injective: numbers with the same digits are equal.
pub proof fn law_decimal_injective(a: nat, b: nat)
    requires
        decimal(a) == decimal(b),
    ensures
        a == b,
    decreases a,
{
    lemma_decimal_shape(a);
    lemma_decimal_shape(b);
    if a >= 10 && b >= 10 {
        assert(decimal(a).drop_last() =~= decimal(a / 10));
        assert(decimal(b).drop_last() =~= decimal(b / 10));
        law_decimal_injective(a / 10, b / 10);
    }
}

proof fn lemma_decimal_shape(n: nat)
    ensures
        decimal(n).len() > 0,
        n < 10 ==> decimal(n).len() == 1,
        n >= 10 ==> decimal(n).len() > 1,
        n >= 10 ==> decimal(n) == decimal(n / 10).push(digit_char((n % 10) as int, UPPER)),
        decimal(n).last() == digit_char((n % 10) as int, UPPER),
    decreases n,
{
    if n >= 10 {
        lemma_decimal_shape(n / 10);
    }
}

/// Splitting loses nothing but the separators, and leaves none in a piece.
pub proof fn law_split_then_join(s: Seq<char>, separator: char)
    ensures
        split_text(s, separator).len() > 0,
        join_text(split_text(s, separator), seq![separator]) == s,
        forall|i: int|
            0 <= i < split_text(s, separator).len() ==> !(
            #[trigger] split_text(s, separator)[i]).contains(separator),
    decreases s.len(),
{
    let pieces = split_text(s, separator);
    let one = seq![separator];
    if s.len() > 0 {
        let shorter = s.drop_last();
        let before = split_text(shorter, separator);
        law_split_then_join(shorter, separator);
        if s.last() == separator {
            assert(pieces.drop_last() =~= before);
            assert(join_text(pieces, one) =~= shorter + one + Seq::empty());
            assert(shorter + one + Seq::empty() =~= s);
        } else {
            let last = before.last().push(s.last());
            assert(pieces.drop_last() =~= before.drop_last());
            assert(!before.last().contains(separator));
            assert(!last.contains(separator)) by {
                assert forall|i: int| 0 <= i < last.len() implies last[i] != separator by {
                    if i < before.last().len() {
                        assert(before.last()[i] == last[i]);
                        assert(before.last().contains(last[i]));
                    }
                }
            }
            assert forall|i: int| 0 <= i < pieces.len() implies !(#[trigger] pieces[i]).contains(
                separator,
            ) by {
                if i < before.len() - 1 {
                    assert(pieces[i] == before[i]);
                }
            }
            if before.len() == 1 {
                assert(join_text(before, one) == before[0]);
                assert(join_text(pieces, one) == pieces[0]);
                assert(last =~= s);
            } else {
                let head = join_text(before.drop_last(), one);
                assert(shorter == head + one + before.last());
                assert(join_text(pieces, one) == head + one + last);
                assert(head + one + last =~= (head + one + before.last()).push(s.last()));
                assert(shorter.push(s.last()) =~= s);
            }
        }
    } else {
        assert(!Seq::<char>::empty().contains(separator));
        assert(pieces[0] =~= s);
    }
}

/// Pieces without a separator come apart as they were joined.
pub proof fn law_join_then_split(pieces: Seq<Seq<char>>, separator: char)
    requires
        pieces.len() > 0,
        forall|i: int| 0 <= i < pieces.len() ==> !(#[trigger] pieces[i]).contains(separator),
    ensures
        split_text(join_text(pieces, seq![separator]), separator) == pieces,
    decreases pieces.len(), pieces.last().len(),
{
    let one = seq![separator];
    let last = pieces.last();
    let joined = join_text(pieces, one);
    let before = pieces.drop_last();
    if last.len() == 0 {
        assert(last =~= Seq::<char>::empty());
        if pieces.len() == 1 {
            assert(pieces =~= seq![Seq::<char>::empty()]);
        } else {
            assert(joined.drop_last() =~= join_text(before, one));
            assert forall|i: int| 0 <= i < before.len() implies !(#[trigger] before[i]).contains(
                separator,
            ) by {
                assert(before[i] == pieces[i]);
            }
            law_join_then_split(before, separator);
            assert(before.push(Seq::empty()) =~= pieces);
        }
    } else {
        let cut = last.drop_last();
        let shorter = before.push(cut);
        assert(shorter.drop_last() =~= before);
        assert(joined.drop_last() =~= join_text(shorter, one));
        assert(!last.contains(separator));
        assert forall|i: int| 0 <= i < shorter.len() implies !(#[trigger] shorter[i]).contains(
            separator,
        ) by {
            if i < before.len() {
                assert(shorter[i] == pieces[i]);
            } else {
                assert forall|j: int| 0 <= j < cut.len() implies cut[j] != separator by {
                    assert(cut[j] == last[j]);
                    assert(last.contains(last[j]));
                }
            }
        }
        law_join_then_split(shorter, separator);
        assert(joined.last() == last.last());
        assert(last.contains(last.last()));
        assert(cut.push(last.last()) =~= last);
        assert(before.push(last) =~= pieces);
    }
}

/// Where the pattern has its first character nowhere else, what is appended and
/// starts with that character is searched on its own.
pub proof fn law_without_appended(a: Seq<char>, b: Seq<char>, needle: Seq<char>)
    requires
        needle.len() > 0,
        b.len() > 0,
        b[0] == needle[0],
        forall|i: int| 0 < i < needle.len() ==> #[trigger] needle[i] != needle[0],
    ensures
        without_text(a + b, needle) == without_text(a, needle) + without_text(b, needle),
    decreases a.len(),
{
    let rest = without_text(b, needle);
    if a.len() == 0 {
        assert(a + b =~= b);
        assert(without_text(a, needle) + rest =~= rest);
    } else {
        let width = needle.len() as int;
        let s = a + b;
        if occurs_at(a, needle, 0) {
            assert(s.subrange(0, width) =~= a.subrange(0, width));
            law_without_appended(a.skip(width), b, needle);
            assert(s.skip(width) =~= a.skip(width) + b);
        } else {
            if occurs_at(s, needle, 0) {
                assert(s.subrange(0, width) == needle);
                if width <= a.len() {
                    assert(a.subrange(0, width) =~= s.subrange(0, width));
                } else {
                    assert(needle[a.len() as int] == s[a.len() as int]);
                }
            }
            law_without_appended(a.skip(1), b, needle);
            assert(s.skip(1) =~= a.skip(1) + b);
            assert(seq![a[0]] + (without_text(a.skip(1), needle) + rest) =~= seq![a[0]]
                + without_text(a.skip(1), needle) + rest);
        }
    }
}

/// Taking a pattern out brings in no character that was not there.
pub proof fn law_without_keeps_out(s: Seq<char>, needle: Seq<char>, c: char)
    requires
        !s.contains(c),
    ensures
        !without_text(s, needle).contains(c),
    decreases s.len(),
{
    if s.len() > 0 && needle.len() > 0 {
        let step = if occurs_at(s, needle, 0) {
            needle.len() as int
        } else {
            1
        };
        let tail = s.skip(step);
        assert forall|i: int| 0 <= i < tail.len() implies tail[i] != c by {
            assert(s[i + step] == tail[i]);
            assert(s.contains(s[i + step]));
        }
        law_without_keeps_out(tail, needle, c);
        if !occurs_at(s, needle, 0) {
            let rest = without_text(tail, needle);
            assert(s.contains(s[0]));
            assert forall|i: int| 0 <= i < (seq![s[0]] + rest).len() implies (seq![s[0]] + rest)[i]
                != c by {
                if i > 0 {
                    assert(rest.contains(rest[i - 1]));
                }
            }
        }
    }
}

/// A pattern that is not shorter than the text, and not the text, is not found in it.
pub proof fn law_without_absent(s: Seq<char>, needle: Seq<char>)
    requires
        s.len() <= needle.len(),
        s != needle,
    ensures
        without_text(s, needle) == s,
    decreases s.len(),
{
    if s.len() > 0 {
        if occurs_at(s, needle, 0) {
            assert(s.subrange(0, needle.len() as int) =~= s);
        }
        law_without_absent(s.skip(1), needle);
        assert(seq![s[0]] + s.skip(1) =~= s);
    }
}

/// The head of a text up to its last `c` is the same whatever follows that `c`.
pub proof fn law_before_last_of_joined(head: Seq<char>, tail: Seq<char>, c: char)
    requires
        !tail.contains(c),
    ensures
        before_last(head + seq![c] + tail, c) == head,
{
    let s = head + seq![c] + tail;
    let k = head.len() as int;
    assert forall|i: int| k < i < s.len() implies s[i] != c by {
        assert(tail[i - k - 1] == s[i]);
        assert(tail.contains(tail[i - k - 1]));
    }
    lemma_before_last(s, c, k);
    assert(s.take(k) =~= head);
}

/// The number that a digit stands for.
pub open spec fn digit_value(c: char) -> int {
    if '0' <= c <= '9' {
        c as int - 48
    } else if 'A' <= c <= 'F' {
        c as int - 55
    } else {
        c as int - 87
    }
}

/// The number that digits stand for in a base.
pub open spec fn number_of(s: Seq<char>, base: nat) -> int
    decreases s.len(),
{
    if s.len() == 0 {
        0
    } else {
        number_of(s.drop_last(), base) * base + digit_value(s.last())
    }
}

/// Hexadecimal digits, read as a number, give the number back, and they are digits of
/// the case that was asked for.
pub proof fn law_hex_digits_value(n: nat, width: nat, ten: char)
    requires
        ten == 'A' || ten == 'a',
        n < pow(16, width),
    ensures
        hex_digits(n, width, ten).len() == width,
        number_of(hex_digits(n, width, ten), 16) == n,
        forall|i: int|
            0 <= i < width ==> '0' <= (#[trigger] hex_digits(n, width, ten)[i]) <= '9' || (ten
                <= hex_digits(n, width, ten)[i] && hex_digits(n, width, ten)[i] as int <= ten as int
                + 5),
    decreases width,
{
    reveal(pow);
    let s = hex_digits(n, width, ten);
    if width > 0 {
        law_hex_digits_value(n / 16, (width - 1) as nat, ten);
        let before = hex_digits(n / 16, (width - 1) as nat, ten);
        assert(s.drop_last() =~= before);
        assert forall|i: int| 0 <= i < width implies '0' <= (#[trigger] s[i]) <= '9' || (ten <= s[i]
            && s[i] as int <= ten as int + 5) by {
            if i < width - 1 {
                assert(s[i] == before[i]);
            }
        }
    }
}

/// A decimal number, read as one, gives the number back. It is made of digits and has no
/// leading zero but for zero itself.
pub proof fn law_decimal_value(n: nat)
    ensures
        decimal(n).len() > 0,
        number_of(decimal(n), 10) == n,
        forall|i: int| 0 <= i < decimal(n).len() ==> '0' <= (#[trigger] decimal(n)[i]) <= '9',
        n > 0 ==> decimal(n)[0] != '0',
    decreases n,
{
    let s = decimal(n);
    reveal_with_fuel(number_of, 2);
    if n < 10 {
        assert(s.drop_last() =~= Seq::<char>::empty());
    } else {
        law_decimal_value(n / 10);
        let before = decimal(n / 10);
        assert(s.drop_last() =~= before);
        assert forall|i: int| 0 <= i < s.len() implies '0' <= (#[trigger] s[i]) <= '9' by {
            if i < s.len() - 1 {
                assert(s[i] == before[i]);
            }
        }
        assert(s[0] == before[0]);
    }
}

/// Lowering changes the code points 65 to 90 alone, by 32, and each where it stands; so
/// lowering again changes nothing.
pub proof fn law_lowered(s: Seq<char>, i: int)
    requires
        0 <= i < s.len(),
    ensures
        lower_text(s).len() == s.len(),
        65 <= s[i] as int <= 90 ==> lower_text(s)[i] as int == s[i] as int + 32,
        !(65 <= s[i] as int <= 90) ==> lower_text(s)[i] == s[i],
        lower_text(lower_text(s)) == lower_text(s),
{
    assert(lower_text(lower_text(s)) =~= lower_text(s));
}

/// A text is found exactly in the texts that it is a middle part of.
pub proof fn law_found_in_the_middle(s: Seq<char>, needle: Seq<char>, a: Seq<char>, b: Seq<char>)
    ensures
        s == a + needle + b ==> occurs_in(s, needle),
        occurs_in(s, needle) ==> exists|at: int|
            0 <= at <= s.len() - needle.len() && s == #[trigger] s.take(at) + needle + s.skip(
                at + needle.len(),
            ),
{
    if s == a + needle + b {
        let at = a.len() as int;
        assert(s.subrange(at, at + needle.len()) =~= needle);
        assert(occurs_at(s, needle, at));
    }
    if occurs_in(s, needle) {
        let at = choose|at: int| #[trigger] occurs_at(s, needle, at);
        assert(s =~= s.take(at) + s.subrange(at, at + needle.len()) + s.skip(at + needle.len()));
    }
}

/// Joining puts the separator between the pieces and nowhere else.
pub proof fn law_joined(pieces: Seq<Seq<char>>, last: Seq<char>, separator: Seq<char>)
    ensures
        join_text(seq![last], separator) == last,
        pieces.len() > 0 ==> join_text(pieces.push(last), separator) == join_text(pieces, separator)
            + separator + last,
        join_text(Seq::empty(), separator) == Seq::<char>::empty(),
{
    assert(pieces.push(last).drop_last() =~= pieces);
}

/// A text without the pattern is left as it is; else what stands before its first
/// occurrence stays, the occurrence goes, and what follows is searched on.
pub proof fn law_first_occurrence_goes(s: Seq<char>, needle: Seq<char>, k: int)
    requires
        needle.len() > 0,
        0 <= k <= s.len(),
        forall|j: int| 0 <= j < k ==> !#[trigger] occurs_at(s, needle, j),
        k < s.len() ==> occurs_at(s, needle, k),
    ensures
        k == s.len() ==> without_text(s, needle) == s,
        k < s.len() ==> without_text(s, needle) == s.take(k) + without_text(
            s.skip(k + needle.len()),
            needle,
        ),
    decreases k,
{
    if k == 0 {
        if s.len() > 0 {
            assert(s.take(0) + without_text(s.skip(needle.len() as int), needle)
                =~= without_text(s.skip(needle.len() as int), needle));
        }
    } else {
        let tail = s.skip(1);
        assert(!occurs_at(s, needle, 0));
        assert forall|j: int| 0 <= j < k - 1 implies !#[trigger] occurs_at(tail, needle, j) by {
            assert(!occurs_at(s, needle, j + 1));
            if j + needle.len() <= tail.len() {
                assert(tail.subrange(j, j + needle.len()) =~= s.subrange(
                    j + 1,
                    j + 1 + needle.len(),
                ));
            }
        }
        if k < s.len() {
            assert(tail.subrange(k - 1, k - 1 + needle.len()) =~= s.subrange(k, k + needle.len()));
        }
        law_first_occurrence_goes(tail, needle, k - 1);
        assert(seq![s[0]] + tail =~= s);
        if k < s.len() {
            assert(tail.skip(k - 1 + needle.len()) =~= s.skip(k + needle.len()));
            let rest = without_text(s.skip(k + needle.len()), needle);
            assert(seq![s[0]] + (tail.take(k - 1) + rest) =~= s.take(k) + rest);
        }
    }
}

/// A text without the mark is not cut.
pub proof fn law_uncut_without_mark(s: Seq<char>, c: char)
    requires
        !s.contains(c),
    ensures
        before_last(s, c) == s,
{
}

/// Aligning puts spaces in front until the width is reached, and keeps the text.
pub proof fn law_aligned(s: Seq<char>, width: nat)
    ensures
        s.len() >= width ==> right_aligned(s, width) == s,
        s.len() < width ==> right_aligned(s, width).len() == width,
        s.len() < width ==> right_aligned(s, width).skip(width - s.len()) == s,
        forall|i: int| 0 <= i < width - s.len() ==> #[trigger] right_aligned(s, width)[i] == ' ',
{
    if s.len() >= width {
        assert(right_aligned(s, width) =~= s);
    } else {
        assert(right_aligned(s, width).skip(width - s.len()) =~= s);
    }
}

/// A signed number is its digits, behind a minus sign where it is negative.
pub proof fn law_signed_decimal_value(n: int)
    ensures
        n >= 0 ==> number_of(signed_decimal(n), 10) == n && signed_decimal(n)[0] != '-',
        n < 0 ==> signed_decimal(n)[0] == '-' && number_of(signed_decimal(n).skip(1), 10) == -n,
{
    reveal_strlit("-");
    if n < 0 {
        law_decimal_value((-n) as nat);
        assert(signed_decimal(n).skip(1) =~= decimal((-n) as nat));
    } else {
        law_decimal_value(n as nat);
    }
}

/// A dump has two digits for each byte, in order, which read as the byte, and a space
/// between two bytes.
pub proof fn law_hex_dump_bytes(bytes: Seq<u8>, i: int)
    requires
        0 <= i < bytes.len(),
    ensures
        hex_dump(bytes).len() == 3 * bytes.len() - 1,
        number_of(hex_dump(bytes).subrange(3 * i, 3 * i + 2), 16) == bytes[i],
        i < bytes.len() - 1 ==> hex_dump(bytes)[3 * i + 2] == ' ',
    decreases bytes.len(),
{
    let pair = |b: u8| hex_digits(b as nat, 2, UPPER);
    let pairs = bytes.map_values(pair);
    let before = bytes.drop_last();
    let last = hex_digits(bytes.last() as nat, 2, UPPER);
    let dump = hex_dump(bytes);
    assert(pairs.drop_last() =~= before.map_values(pair));
    reveal_with_fuel(pow, 3);
    law_hex_digits_value(bytes.last() as nat, 2, UPPER);
    if bytes.len() == 1 {
        assert(dump == last);
        assert(dump.subrange(0, 2) =~= last);
    } else {
        let head = hex_dump(before);
        law_hex_dump_bytes(before, 0);
        assert(dump == head + seq![' '] + last);
        if i < before.len() {
            law_hex_dump_bytes(before, i);
            assert(dump.subrange(3 * i, 3 * i + 2) =~= head.subrange(3 * i, 3 * i + 2));
        } else {
            assert(dump.subrange(3 * i, 3 * i + 2) =~= last);
        }
    }
}

} // verus!
