use one_for_all::json::{array_of_texts, Json, JsonNumber};
use one_for_all::slots::SlotMap;
use one_for_all::text::{
    decimal_text, join_texts, padded_text, parse_unsigned_chars, quote_inside, repeat_between,
    replace_first, split_chars, text_before, text_contains, text_ends_with, text_starts_with,
    trim_start_text, trim_text,
};
use one_for_all::text_map::TextMap;

#[test]
fn numerals() {
    assert_eq!(decimal_text(0), "0");
    assert_eq!(decimal_text(u64::MAX), "18446744073709551615");
    assert_eq!(padded_text(7, 4), "0007");
    assert_eq!(padded_text(12345, 4), "12345");
    let parse = |s: &str| parse_unsigned_chars(&s.chars().collect::<Vec<char>>(), u64::MAX);
    assert_eq!(parse("+17"), Some(17));
    assert_eq!(parse("18446744073709551615"), Some(u64::MAX));
    assert_eq!(parse("18446744073709551616"), None);
    assert_eq!(parse(""), None);
    assert_eq!(parse("+"), None);
    assert_eq!(parse("1a"), None);
}

#[test]
fn trimming_and_searching() {
    assert_eq!(trim_text(" \t a b\u{3000}"), "a b");
    assert_eq!(trim_start_text("\n x "), "x ");
    assert!(text_contains("abcabd", "abd"));
    assert!(!text_contains("abc", "abd"));
    assert!(text_starts_with("abc", "ab"));
    assert!(text_ends_with("abc", "bc"));
    assert!(text_before("ab", "b"));
    assert!(!text_before("b", "ab"));
    let parts = split_chars(&"a,,b".chars().collect::<Vec<char>>(), ',');
    assert_eq!(parts.len(), 3);
    assert_eq!(quote_inside("a\"\\"), "a\\\"\\\\");
    assert_eq!(repeat_between("<", "ab", 2, ">"), "<abab>");
    assert_eq!(
        join_texts(&vec!["a".to_string(), "b".to_string()], " > "),
        "a > b"
    );
    assert_eq!(join_texts(&vec![], "x"), "");
}

#[test]
fn json_numbers_keep_their_kind() {
    assert!(matches!(Json::signed(-4), Json::Number(JsonNumber::NegInt(-4))));
    assert!(matches!(Json::signed(4), Json::Number(JsonNumber::PosInt(4))));
    assert!(matches!(Json::double(f64::NAN.to_bits()), Json::Null));
    assert!(matches!(Json::double(1.5f64.to_bits()), Json::Number(JsonNumber::Float { .. })));
    assert!(matches!(array_of_texts(&vec!["x".to_string()]), Json::Array(v) if v.len() == 1));
}

#[test]
fn maps_keep_their_entries() {
    let mut m: SlotMap<u32> = SlotMap::new();
    m.insert("a", 1);
    m.insert("b", 2);
    m.insert("c", 3);
    m.insert("a", 9);
    assert_eq!(m.get("a"), Some(&9));
    assert_eq!(m.remove("a"), Some(9));
    assert_eq!(m.remove("a"), None);
    assert_eq!(m.get("c"), Some(&3));
    assert_eq!(m.get("b"), Some(&2));
    assert_eq!(m.len(), 2);
    if let Some(v) = m.get_mut("b") {
        *v += 1;
    }
    assert_eq!(m.get("b"), Some(&3));
    let mut t: TextMap<u32> = TextMap::new();
    t.insert("z".to_string(), 1);
    t.insert("a".to_string(), 2);
    assert_eq!(t.at(0).0, "a");
    *t.entry("m", 0) += 5;
    assert_eq!(t.get("m"), Some(&5));
    assert_eq!(t.remove("z"), Some(1));
}

#[test]
fn only_the_first_occurrence_is_replaced() {
    assert_eq!(replace_first("a-b-c", "-", "+"), "a+b-c");
    assert_eq!(replace_first("abc", "bc", ""), "a");
    assert_eq!(replace_first("abc", "x", "y"), "abc");
    assert_eq!(replace_first("", "x", "y"), "");
    assert_eq!(replace_first("abc", "", "y"), "yabc");
}
