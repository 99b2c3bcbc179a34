use uptime_checker::{ids, number, text};

const ID: u128 = 0x54afc7ed_9c53_4914_8191_9c931f75bae1;

#[test]
fn ids_are_written_in_hex() {
    assert_eq!(ids::to_simple(0x54af), "000000000000000000000000000054af");
    assert_eq!(ids::to_simple(ID), "54afc7ed9c53491481919c931f75bae1");
    assert_eq!(ids::to_hyphenated(ID), "54afc7ed-9c53-4914-8191-9c931f75bae1");
    assert_eq!(ids::hex_text(0x2a, 16), "000000000000002a");
}

#[test]
fn the_bytes_of_an_id_denote_it() {
    let bytes = ids::to_bytes(ID);
    assert_eq!(bytes[0], 0x54);
    assert_eq!(bytes[15], 0xe1);
    assert_eq!(ids::from_bytes(&bytes), Some(ID));
    assert_eq!(ids::from_bytes(&bytes[1..]), None);
}

#[test]
fn names_have_ids_of_version_five() {
    let expected = uuid::Uuid::new_v5(&uuid::Uuid::from_u128(ID), b"a name").as_u128();
    assert_eq!(ids::id_of_name(ID, b"a name"), expected);
    assert_ne!(ids::id_of_name(ID, b"another"), expected);
    assert_eq!((expected >> 76) & 0xf, 5);
}

#[test]
fn integers_are_written_in_decimal() {
    assert_eq!(text::decimal_of(0), "0");
    assert_eq!(text::decimal_of(u128::MAX), u128::MAX.to_string());
    assert_eq!(text::signed_decimal_of(-17), "-17");
    assert_eq!(text::signed_decimal_of(i64::MIN), i64::MIN.to_string());
}

#[test]
fn texts_are_ordered_by_their_bytes() {
    assert!(text::text_lt("a", "b"));
    assert!(text::text_lt("a", "aa"));
    assert!(!text::text_lt("b", "ab"));
    assert!(text::text_lt("z", "\u{e9}"));
    assert!(text::text_eq("\u{e9}", "\u{e9}"));
    assert!(!text::text_eq("a", "A"));
}

#[test]
fn texts_are_split_joined_and_trimmed() {
    assert_eq!(text::split("a,,b,", ','), vec!["a", "", "b", ""]);
    assert_eq!(text::split("", ','), vec![""]);
    let parts: Vec<String> = vec!["a".to_owned(), "b".to_owned(), "c".to_owned()];
    assert_eq!(text::join(&parts, ", "), "a, b, c");
    assert_eq!(text::trim(" \t\u{2003}a b\u{3000}\n"), "a b");
    assert_eq!(text::trim(" \n "), "");
    for c in '\0'..='\u{ffff}' {
        assert_eq!(text::trim(&c.to_string()).is_empty(), c.is_whitespace());
    }
}

#[test]
fn numbers_are_compared_by_their_bits() {
    let bits = |s: &str| number::parse_number(s).unwrap();
    assert_eq!(bits("1.5"), 1.5f64.to_bits());
    assert!(number::equals(bits("0"), bits("-0")));
    assert!(number::less(bits("-2"), bits("-1.5")));
    assert!(number::less(bits("-inf"), bits("1e308")));
    assert!(!number::less(bits("2"), bits("2.0")));
    assert!(!number::equals(bits("NaN"), bits("NaN")));
    assert!(!number::less(bits("NaN"), bits("1")));
    assert_eq!(number::parse_number("x").unwrap_err(), "invalid float literal");
}
