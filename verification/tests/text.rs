use omniinfer::json::{same_json, Fields, Json};
use omniinfer::text::chars::{is_control, is_white, to_lower, to_upper};
use omniinfer::text::compose::{has_item, join, replace};
use omniinfer::text::number::{
    parse_u16, parse_u32, parse_u64, show, show_hex, show_hex_bytes, show_signed,
};
use omniinfer::text::order::{comes_before, place};
use omniinfer::text::pieces::{lines, split, words};
use omniinfer::text::search::{
    has_prefix, has_suffix, has_text, rsplit_once, split_once, strip_prefix,
};
use omniinfer::text::trim::{is_blank, trim, trim_end_of, trim_of, trim_start_of, CharClass};

const SAMPLES: [&str; 12] = [
    "",
    " ",
    "plain",
    "  two words \n",
    "a=b=c",
    "line one\r\nline two\n\nlast",
    "\u{a0}\u{2003}wide\u{3000}",
    "\u{85}next",
    "Gr\u{fc}\u{df}e \u{1f600}",
    "/a/b/c/",
    "***x***",
    "\r\n\r\n",
];

#[test]
fn characters_are_told_apart() {
    for code in 0..=0x10ffffu32 {
        if let Some(c) = char::from_u32(code) {
            assert_eq!(is_white(c), c.is_whitespace(), "{code:x}");
            assert_eq!(is_control(c), c.is_control(), "{code:x}");
        }
    }
}

#[test]
fn texts_are_trimmed() {
    for s in SAMPLES {
        assert_eq!(trim(s), s.trim());
        assert_eq!(is_blank(s), s.trim().is_empty());
        assert_eq!(trim_start_of(s, CharClass::White), s.trim_start());
        assert_eq!(trim_end_of(s, CharClass::White), s.trim_end());
        assert_eq!(trim_end_of(s, CharClass::Only('/')), s.trim_end_matches('/'));
        assert_eq!(trim_of(s, CharClass::Only('*')), s.trim_matches('*'));
        assert_eq!(trim(&trim(s)), trim(s));
    }
}

#[test]
fn texts_are_cut() {
    for s in SAMPLES {
        assert_eq!(words(s), s.split_whitespace().collect::<Vec<_>>());
        assert_eq!(lines(s), s.lines().collect::<Vec<_>>());
        assert_eq!(split(s, '/'), s.split('/').collect::<Vec<_>>());
        let own = |o: Option<(&str, &str)>| o.map(|(a, b)| (a.to_string(), b.to_string()));
        assert_eq!(split_once(s, '='), own(s.split_once('=')));
        assert_eq!(rsplit_once(s, '='), own(s.rsplit_once('=')));
        assert_eq!(replace(s, '/', "\\"), s.replace('/', "\\"));
        assert_eq!(to_lower(s), s.to_ascii_lowercase());
        assert_eq!(to_upper(s), s.to_ascii_uppercase());
        for part in ["", "a", "line", "\u{df}"] {
            assert_eq!(has_text(s, part), s.contains(part));
            assert_eq!(has_prefix(s, part), s.starts_with(part));
            assert_eq!(has_suffix(s, part), s.ends_with(part));
            assert_eq!(strip_prefix(s, part).as_deref(), s.strip_prefix(part));
        }
    }
}

#[test]
fn texts_have_an_order() {
    for a in SAMPLES {
        for b in SAMPLES {
            assert_eq!(comes_before(a, b), a < b, "{a:?} {b:?}");
        }
    }
    let mut list = Vec::new();
    for s in ["b", "a", "c", "a"] {
        place(&mut list, s);
    }
    assert_eq!(list, vec!["a", "b", "c"]);
    assert!(has_item(&list, "b"));
    assert_eq!(join(&list, ", "), "a, b, c");
}

#[test]
fn numbers_are_written_and_read() {
    for n in [0, 7, 10, 65535, 65536, u32::MAX as u64, u64::MAX] {
        assert_eq!(show(n), n.to_string());
        assert_eq!(parse_u64(&show(n)), Some(n));
        assert_eq!(parse_u32(&show(n)), n.to_string().parse::<u32>().ok());
        assert_eq!(parse_u16(&show(n)), n.to_string().parse::<u16>().ok());
    }
    for s in ["", "+", "+7", "-0", "007", "1 ", "x", "18446744073709551616", "99999999999999999999"] {
        assert_eq!(parse_u64(s), s.parse::<u64>().ok(), "{s:?}");
    }
    for n in [0, -1, 5, i64::MIN, i64::MAX] {
        assert_eq!(show_signed(n), n.to_string());
    }
    assert_eq!(show_hex(255, 8), "000000ff");
    assert_eq!(show_hex_bytes(&vec![0, 171, 255]), "00abff");
}

#[test]
fn the_last_field_with_a_key_counts() {
    let mut fields = Fields::new();
    fields.number("a", 1);
    fields.text("b", "x");
    fields.number("a", 2);
    let json = fields.done();
    assert_eq!(json.get_number("a"), Some(2));
    assert_eq!(json.get_text("b").as_deref(), Some("x"));
    assert!(json.get("c").is_none());
    assert!(Json::Null.get("a").is_none());
}

#[test]
fn values_are_compared() {
    let list = |n: u64| Json::Array(vec![Json::Unsigned(n), Json::Null]);
    assert!(same_json(&list(1), &list(1)));
    assert!(!same_json(&list(1), &list(2)));
    assert!(!same_json(&list(1), &Json::Array(vec![Json::Unsigned(1)])));
    let object = |key: &str, value: Json| Json::Object(vec![(key.to_string(), value)]);
    assert!(same_json(&object("a", list(1)), &object("a", list(1))));
    assert!(!same_json(&object("a", list(1)), &object("b", list(1))));
    assert!(!same_json(&Json::Unsigned(1), &Json::Float(1)));
    assert!(same_json(&Json::Negative(-1), &Json::Negative(-1)));
}

#[test]
fn bytes_are_read_as_text() {
    assert_eq!(omniinfer::text::bytes::decode(&b"a\xc3\xa9".to_vec()), "a\u{e9}");
    assert_eq!(omniinfer::text::bytes::decode(&b"a\xff".to_vec()), "a\u{fffd}");
}
