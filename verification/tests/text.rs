use v3s_monitor::text::{
    chars_contain, chars_start_with, decimal_len, find_first, from_chars, is_whitespace,
    parse_hex_number, parse_number, rfind_char, split_chars, split_lines, split_whitespace,
    strip_quote_chars, to_chars, trim_chars, trim_start_chars,
};

fn cs(s: &str) -> Vec<char> {
    s.chars().collect()
}

fn strings(v: Vec<Vec<char>>) -> Vec<String> {
    v.iter().map(|p| p.iter().collect()).collect()
}

const TEXTS: [&str; 24] = [
    "",
    " ",
    "a",
    "a b",
    "  a  b  ",
    "a\nb",
    "a\nb\n",
    "a\r\nb\r\n",
    "a\rb\r",
    "\n",
    "\n\n",
    "\r\n",
    "\r",
    "a\n\nb",
    "a\r\r\nb",
    "x\n\r",
    "one.two.three",
    "..a..",
    "\ttab\u{a0}nbsp\u{3000}wide\u{2009}thin",
    "caf\u{e9} \u{4e2d}\u{6587}\n\u{1f600}",
    "a:b:c",
    "::",
    "\"quoted\"",
    "\"\"q\"\"\"",
];

#[test]
fn chars_and_strings_convert() {
    for t in TEXTS {
        assert_eq!(to_chars(t), cs(t));
        assert_eq!(from_chars(&cs(t)), t);
    }
}

#[test]
fn splitting_agrees_with_std() {
    for t in TEXTS {
        for sep in ['.', ':', '\n', ' ', 'a'] {
            let want: Vec<String> = t.split(sep).map(|p| p.to_string()).collect();
            assert_eq!(strings(split_chars(&cs(t), sep)), want, "{:?} {:?}", t, sep);
        }
    }
}

#[test]
fn lines_agree_with_std() {
    for t in TEXTS {
        let want: Vec<String> = t.lines().map(|p| p.to_string()).collect();
        assert_eq!(strings(split_lines(&cs(t))), want, "{:?}", t);
    }
}

#[test]
fn words_agree_with_std() {
    for t in TEXTS {
        let want: Vec<String> = t.split_whitespace().map(|p| p.to_string()).collect();
        assert_eq!(strings(split_whitespace(&cs(t))), want, "{:?}", t);
    }
}

#[test]
fn trimming_chars_agrees_with_std() {
    for t in TEXTS {
        assert_eq!(trim_chars(&cs(t)), cs(t.trim()), "{:?}", t);
        assert_eq!(trim_start_chars(&cs(t)), cs(t.trim_start()), "{:?}", t);
        assert_eq!(strip_quote_chars(&cs(t)), cs(t.trim_matches('"')), "{:?}", t);
    }
}

#[test]
fn white_space_agrees_with_std() {
    for u in 0u32..0x11000 {
        if let Some(c) = char::from_u32(u) {
            assert_eq!(is_whitespace(c), c.is_whitespace(), "{:x}", u);
        }
    }
}

#[test]
fn searching_agrees_with_std() {
    for t in TEXTS {
        for p in ["", "a", "b", "a b", "\n", "..", "\u{4e2d}", "three", "zzz"] {
            let tc = cs(t);
            let pc = cs(p);
            assert_eq!(chars_contain(&tc, &pc), t.contains(p), "{:?} {:?}", t, p);
            assert_eq!(chars_start_with(&tc, &pc), t.starts_with(p), "{:?} {:?}", t, p);
            let want = t.find(p).map(|b| t[..b].chars().count());
            assert_eq!(find_first(&tc, &pc, 0), want, "{:?} {:?}", t, p);
        }
        for c in ['a', '.', '\n', '"'] {
            let want = t.rfind(c).map(|b| t[..b].chars().count());
            assert_eq!(rfind_char(&cs(t), c), want, "{:?} {:?}", t, c);
        }
    }
}

const NUMERALS: [&str; 28] = [
    "",
    "+",
    "-",
    "0",
    "+0",
    "-0",
    "7",
    "007",
    "255",
    "256",
    "+255",
    "++1",
    "1+",
    " 1",
    "1 ",
    "12a",
    "a",
    "ff",
    "FF",
    "fF0",
    "0x10",
    "65535",
    "65536",
    "4294967295",
    "4294967296",
    "18446744073709551615",
    "18446744073709551616",
    "000000000000000000000000000018446744073709551615",
];

#[test]
fn numerals_agree_with_std() {
    for t in NUMERALS {
        let c = cs(t);
        assert_eq!(parse_number(&c, 255), t.parse::<u8>().ok().map(|v| v as u64), "{:?}", t);
        assert_eq!(parse_number(&c, 65535), t.parse::<u16>().ok().map(|v| v as u64), "{:?}", t);
        assert_eq!(
            parse_number(&c, 0xffff_ffff),
            t.parse::<u32>().ok().map(|v| v as u64),
            "{:?}",
            t
        );
        assert_eq!(parse_number(&c, u64::MAX), t.parse::<u64>().ok(), "{:?}", t);
        assert_eq!(parse_hex_number(&c, u64::MAX), u64::from_str_radix(t, 16).ok(), "{:?}", t);
        assert_eq!(
            parse_hex_number(&c, 255),
            u8::from_str_radix(t, 16).ok().map(|v| v as u64),
            "{:?}",
            t
        );
    }
    assert_eq!(parse_hex_number(&cs("ffffffffffffffff"), u64::MAX), Some(u64::MAX));
    assert_eq!(parse_hex_number(&cs("10000000000000000"), u64::MAX), None);
    assert_eq!(parse_number(&cs("9"), 8), None);
    assert_eq!(parse_number(&cs("0"), 0), Some(0));
    assert_eq!(parse_number(&cs("1"), 0), None);
}

#[test]
fn digits_of_a_number() {
    assert_eq!(decimal_len(0), 1);
    assert_eq!(decimal_len(9), 1);
    assert_eq!(decimal_len(10), 2);
    assert_eq!(decimal_len(99), 2);
    assert_eq!(decimal_len(100), 3);
    assert_eq!(decimal_len(u64::MAX), 20);
}
