use logibar::text::{
    chars_of, contains, cut_at_last, lower_chars, push_aligned, push_decimal, push_hex,
    push_hex_dump, spell, split, stands_at, to_lower, without, LOWER, UPPER,
};

fn chars(s: &str) -> Vec<char> {
    s.chars().collect()
}

#[test]
fn numbers_are_written_as_std_writes_them() {
    for n in [0u64, 7, 9, 10, 99, 100, 255, 4660, 65535, u64::MAX] {
        let mut s = String::from("<");
        push_decimal(&mut s, n);
        assert_eq!(s, format!("<{n}"));
    }
    for n in [0u64, 9, 10, 15, 16, 0xAB, 0xC547, 0xFFFF] {
        let mut s = String::new();
        push_hex(&mut s, n, 4, UPPER);
        assert_eq!(s, format!("{n:04X}"));
        let mut s = String::new();
        push_hex(&mut s, n, 4, LOWER);
        assert_eq!(s, format!("{n:04x}"));
    }
}

#[test]
fn numbers_are_aligned_as_std_aligns_them() {
    for n in [-1i32, 0, 5, 42, 123, 1234, -12, -123, i32::MIN, i32::MAX] {
        let mut s = String::new();
        push_aligned(&mut s, n, 3);
        assert_eq!(s, format!("{n:>3}"));
    }
}

#[test]
fn bytes_are_dumped_in_pairs() {
    let mut s = String::from("[");
    push_hex_dump(&mut s, &[0x10, 0x01, 0xAF]);
    assert_eq!(s, "[10 01 AF");
    let mut s = String::from("[");
    push_hex_dump(&mut s, &[]);
    assert_eq!(s, "[");
}

#[test]
fn only_ascii_letters_are_lowered() {
    assert_eq!(to_lower('Z'), 'z');
    assert_eq!(to_lower('['), '[');
    assert_eq!(to_lower('Ä'), 'Ä');
    assert_eq!(spell(&lower_chars("G PRO Ä")), "g pro Ä");
    assert_eq!(spell(&chars_of("aß漢")), "aß漢");
}

#[test]
fn pieces_stand_where_they_are_found() {
    let text = chars("wireless mouse");
    assert!(contains(&text, "mouse"));
    assert!(contains(&text, ""));
    assert!(!contains(&text, "house"));
    assert!(!contains(&chars(""), "m"));
    assert!(stands_at(&text, &chars("less"), 4));
    assert!(!stands_at(&text, &chars("less"), 5));
    assert!(!stands_at(&text, &chars("mouse!"), 9));
}

#[test]
fn splitting_and_cutting_agree_with_std() {
    for s in ["", "#", "a", "a#b", "#a##b#", "\\\\?\\hid#x&col01#a&b&0000#{g}"] {
        let expected: Vec<Vec<char>> = s.split('#').map(chars).collect();
        assert_eq!(split(&chars(s), '#'), expected);
    }
    for s in ["", "a", "&", "a&b", "a&b&0000", "&a"] {
        let expected = match s.rfind('&') {
            Some(at) => &s[..at],
            None => s,
        };
        assert_eq!(spell(&cut_at_last(&chars(s), '&')), expected);
    }
}

#[test]
fn patterns_are_taken_out_as_std_replaces_them() {
    for s in ["", "x&col01", "&col01&col01y", "&col&col01", "aaa", "&col02"] {
        for needle in ["&col01", "aa", "x"] {
            assert_eq!(spell(&without(&chars(s), &chars(needle))), s.replace(needle, ""));
        }
    }
}
