use freemdu_home::text::{
    equal_ignoring_case, find, holds_white, index_of, leading_word, parse_number, part_behind,
    push_decimal, push_hex, push_hex_bytes, push_numeral, push_signed, same_bytes, split_fields,
    starts_with, strip_prefix, trim_end,
};

/// Every character, and some of them in a row.
fn chars() -> Vec<char> {
    (0..=0x10ffff).filter_map(char::from_u32).collect()
}

#[test]
fn white_space_is_that_of_unicode() {
    for c in chars() {
        let s = format!("a{c}");
        assert_eq!(
            holds_white(s.as_bytes()),
            c.is_whitespace(),
            "{:x}",
            c as u32
        );
        assert_eq!(trim_end(s.as_bytes()), s.trim_end().as_bytes());
    }
}

#[test]
fn leading_words_agree_with_the_standard_library() {
    let seps = [
        " ", "\t", "\n", "\u{b}", "\u{c}", "\r", "\u{85}", "\u{a0}", "\u{1680}", "\u{2003}",
        "\u{2028}", "\u{3000}", "\u{200b}", "x", "",
    ];
    for a in seps {
        for b in seps {
            for word in ["", "word", "wört", "\u{20ac}"] {
                let s = format!("{a}{b}{word}{b}{a}rest{a}");
                assert_eq!(
                    leading_word(s.as_bytes()),
                    s.split_whitespace().next().map(str::as_bytes),
                    "{s:?}"
                );
                assert_eq!(trim_end(s.as_bytes()), s.trim_end().as_bytes(), "{s:?}");
                let fields: Vec<&[u8]> = s.split_ascii_whitespace().map(str::as_bytes).collect();
                assert_eq!(split_fields(s.as_bytes()), fields, "{s:?}");
            }
        }
    }
}

#[test]
fn numbers_agree_with_the_standard_library() {
    for s in [
        "", "+", "-", "0", "+0", "-0", "7", "+7", "++7", "007", "65535", "65536", "99999", "f",
        "F", "fF", "+ff", "g", "0x1", "1 ", " 1", "10000", "ffff", "4294967295", "4294967296",
        "ffffffff", "100000000", "+00000000000000000000042", "\u{660}",
    ] {
        assert_eq!(
            parse_number(s.as_bytes(), 10, 0xffff),
            s.parse::<u16>().ok().map(u64::from),
            "{s}"
        );
        assert_eq!(
            parse_number(s.as_bytes(), 16, 0xffff),
            u16::from_str_radix(s, 16).ok().map(u64::from),
            "{s}"
        );
        assert_eq!(
            parse_number(s.as_bytes(), 10, 0xffff_ffff),
            s.parse::<u32>().ok().map(u64::from),
            "{s}"
        );
        assert_eq!(
            parse_number(s.as_bytes(), 16, 0xffff_ffff),
            u32::from_str_radix(s, 16).ok().map(u64::from),
            "{s}"
        );
    }
}

#[test]
fn numerals_are_written() {
    for n in [0_u64, 1, 9, 10, 15, 16, 255, 256, 65535, 65536, u64::MAX] {
        let mut out = vec![];
        push_decimal(&mut out, n);
        push_hex(&mut out, n, 4);
        push_hex(&mut out, n, 8);
        push_numeral(&mut out, n, 10, 3);
        assert_eq!(out, format!("{n}{n:04x}{n:08x}{n:03}").into_bytes());
    }
    for n in [0, 1, -1, 12, -1200, i32::MAX, i32::MIN] {
        let mut out = vec![];
        push_signed(&mut out, n);
        assert_eq!(out, n.to_string().into_bytes());
    }
    let mut out = b"data=".to_vec();
    push_hex_bytes(&mut out, &[0, 0x0a, 0xff]);
    assert_eq!(out, b"data=000aff");
}

#[test]
fn parts_are_found() {
    for s in [
        "",
        " data=",
        "OK data=12",
        "OK data=12 data=34",
        "OK  data= data=x",
        " dat data=z",
    ] {
        assert_eq!(
            part_behind(s.as_bytes(), b" data="),
            s.split(" data=").nth(1).map(str::as_bytes),
            "{s}"
        );
        assert_eq!(find(s.as_bytes(), b" data="), s.find(" data="));
    }
    assert_eq!(index_of(b"a=b=c", b'='), 1);
    assert_eq!(index_of(b"abc", b'='), 3);
    assert!(starts_with(b"ERR x", b"ERR "));
    assert!(!starts_with(b"ERR", b"ERR "));
    assert_eq!(strip_prefix(b"tcp://h", b"tcp://"), Some(&b"h"[..]));
    assert_eq!(strip_prefix(b"tcp:/h", b"tcp://"), None);
    assert!(same_bytes(b"ab", b"ab"));
    assert!(!same_bytes(b"ab", b"abc"));
}

#[test]
fn ascii_case_is_ignored() {
    for a in 0..=255_u8 {
        for b in 0..=255_u8 {
            assert_eq!(equal_ignoring_case(&[a], &[b]), a.eq_ignore_ascii_case(&b));
        }
    }
    assert!(!equal_ignoring_case(b"off", b"offf"));
}
