use multiview_control::json::{copy_json, Json};
use multiview_control::net_literal::{parse_ipv4, parse_ipv6};
use multiview_control::sections::Sections;
use multiview_control::table::Table;
use multiview_control::text::{
    ascii_lowercase, decimal_text, join, parse_unsigned, split_all, split_once,
    str_less, strip_suffix, trim, CharClass,
};
use multiview_control::time::{Duration, MediaTime};

#[test]
fn address_literals_are_read() {
    assert_eq!(parse_ipv4("1.2.3.4"), Some([1, 2, 3, 4]));
    assert_eq!(parse_ipv4("255.0.10.255"), Some([255, 0, 10, 255]));
    for t in ["256.1.1.1", "01.2.3.4", "1.2.3", "1.2.3.4.5", "", "a.b.c.d", "1.2.3.4 "] {
        assert_eq!(parse_ipv4(t), None, "{t:?}");
    }
    assert_eq!(parse_ipv6("::"), Some(vec![0; 8]));
    assert_eq!(parse_ipv6("::1"), Some(vec![0, 0, 0, 0, 0, 0, 0, 1]));
    assert_eq!(parse_ipv6("fd00:DB8::7"), Some(vec![0xfd00, 0xdb8, 0, 0, 0, 0, 0, 7]));
    assert_eq!(parse_ipv6("1:2:3:4:5:6:7:8"), Some(vec![1, 2, 3, 4, 5, 6, 7, 8]));
    assert_eq!(parse_ipv6("1:2:3:4:5:6:7::"), Some(vec![1, 2, 3, 4, 5, 6, 7, 0]));
    assert_eq!(
        parse_ipv6("::ffff:1.2.3.4"),
        Some(vec![0, 0, 0, 0, 0, 0xffff, 0x0102, 0x0304])
    );
    for t in [
        "1::2::3", "12345::", "1:2:3:4:5:6:7", "g::", "", ":", ":::", "1:2:", "fe80::1%eth0",
        "1:2:3:4:5:6:7:8:9", "::1.2.3", "1.2.3.4::",
    ] {
        assert_eq!(parse_ipv6(t), None, "{t:?}");
    }
}

#[test]
fn numbers_are_written_and_read_as_std_does() {
    for n in [0u64, 7, 10, 99, 100, u64::MAX] {
        assert_eq!(decimal_text(n), n.to_string());
    }
    for t in ["0", "007", "+7", "-7", "", "+", "7 ", "18446744073709551615", "18446744073709551616"] {
        assert_eq!(parse_unsigned(t, u64::MAX), t.parse::<u64>().ok(), "{t:?}");
        assert_eq!(parse_unsigned(t, 255), t.parse::<u8>().ok().map(u64::from), "{t:?}");
    }
}

#[test]
fn texts_are_cut_and_compared_as_std_does() {
    for t in ["", " a ", "\u{a0}x\u{3000}", "\t\n", "\u{200b}x"] {
        assert_eq!(trim(t, CharClass::White), t.trim(), "{t:?}");
    }
    assert_eq!(trim("\"\"5\"", CharClass::Only('"')), "5");
    assert_eq!(split_once("a.b.c", '.'), Some(("a", "b.c")));
    assert_eq!(split_once("abc", '.'), None);
    assert_eq!(split_all("a//b", '/'), vec!["a", "", "b"]);
    assert_eq!(strip_suffix("a.local.", ".local."), Some("a"));
    assert_eq!(ascii_lowercase("A\u{c9}z"), "A\u{c9}z".to_ascii_lowercase());
    assert_eq!(join(&vec!["a".to_owned(), "b".to_owned()], ", "), "a, b");
    let words = ["", "a", "ab", "b", "\u{e9}", "\u{10000}", "\u{ffff}"];
    for a in words {
        for b in words {
            assert_eq!(str_less(a, b), a < b, "{a:?} {b:?}");
        }
    }
}

#[test]
fn tables_keep_their_rows_in_the_order_of_their_keys() {
    let mut t: Table<u32> = Table::new();
    for (n, k) in ["m", "a", "z", "m"].into_iter().enumerate() {
        t.insert(k.to_owned(), n as u32);
    }
    assert_eq!(t.len(), 3);
    assert_eq!(t.key_at(0), "a");
    assert_eq!(t.get("m"), Some(&3));
    assert_eq!(t.remove("a"), Some(1));
    assert!(!t.contains("a"));
    assert_eq!(t.pop(), Some(("z".to_owned(), 2)));
    t.clear();
    assert_eq!(t.len(), 0);
}

#[test]
fn documents_give_their_fields() {
    let j = Json::object(vec![
        ("n".to_owned(), Json::Negative(-4)),
        ("s".to_owned(), Json::string("x")),
        ("l".to_owned(), Json::List(vec![Json::Bool(true)])),
    ]);
    assert_eq!(j.field("n").unwrap().signed(), Some(-4));
    assert_eq!(j.text_field("s"), Some("x"));
    assert_eq!(j.field("l").unwrap().list().unwrap()[0].boolean(), Some(true));
    assert_eq!(j.field("missing"), None);
    assert_eq!(copy_json(&j), j);
}

#[test]
fn section_names_are_a_sorted_set() {
    let mut s = Sections::new();
    s.insert("outputs");
    s.insert("audio");
    s.insert("audio");
    let mut more = Sections::new();
    more.insert("canvas");
    s.extend(&more);
    assert_eq!(s.list(), vec!["audio", "canvas", "outputs"]);
    s.remove("audio");
    assert!(!s.contains("audio") && !s.is_empty());
}

#[test]
fn spans_and_instants_are_exact() {
    assert_eq!(Duration::from_secs(2), Duration::from_millis(2_000));
    assert_eq!(Duration::from_nanos(1_999_999).as_millis(), 1);
    let early = MediaTime::from_nanos(i64::MIN);
    let late = MediaTime::from_nanos(i64::MAX);
    assert_eq!(late.saturating_sub(early).as_nanos(), i64::MAX);
    assert_eq!(early.saturating_sub(late).as_nanos(), i64::MIN);
}

#[test]
fn documents_are_written_and_read_back() {
    let j = Json::parse(br#" { "a" : [1, -2, 2.5, null] } "#).unwrap();
    assert_eq!(j.to_text(), r#"{"a":[1,-2,2.5,null]}"#);
    assert_eq!(Json::parse(j.to_text().as_bytes()), Ok(j));
    assert!(Json::parse(b"{").is_err());
}
