use hexai::json::repeats;
use hexai::store::Store;
use hexai::text::{
    byte_len, concat2, concat3, contains_text, cut_at, ends_with, join, join_range, number,
    parse_number, split_char, split_whitespace, starts_with, string_of, strip_prefix, take_chars,
    text_or, trim, trim_end_copies, trim_end_matches, trim_start_matches,
};

#[test]
fn trim_takes_unicode_white_space() {
    assert_eq!(trim("\u{3000} \t ala ma \n"), "ala ma");
    assert_eq!(trim(" \n "), "");
    assert_eq!(trim("kot"), "kot".trim());
}

#[test]
fn trim_agrees_with_std_on_every_character() {
    for n in 0..0x11_0000u32 {
        if let Some(c) = char::from_u32(n) {
            let mut s = String::new();
            s.push(c);
            assert_eq!(trim(&s).is_empty(), c.is_whitespace());
        }
    }
}

#[test]
fn trim_matches_takes_one_character() {
    assert_eq!(trim_start_matches("//a/b/", '/'), "a/b/");
    assert_eq!(trim_end_matches("http://x//", '/'), "http://x");
    assert_eq!(trim_end_copies("a.db.db", ".db"), "a");
    assert_eq!(trim_end_copies(".db", ".db"), "");
}

#[test]
fn splitting_and_joining_a_list() {
    let parts = split_char("a,,b,", ',');
    assert_eq!(parts, vec!["a", "", "b", ""]);
    assert_eq!(join(&parts, ","), "a,,b,");
    assert_eq!(split_char("", ','), vec![""]);
    assert_eq!(join(&vec![], ","), "");
    assert_eq!(join_range(&parts, 1, 3, "-"), "-b");
}

#[test]
fn words_are_runs_without_white_space() {
    assert_eq!(split_whitespace("  ala\tma \u{a0} kota\n"), vec!["ala", "ma", "kota"]);
    assert!(split_whitespace(" \n").is_empty());
}

#[test]
fn prefixes_suffixes_and_contents() {
    assert!(starts_with("https://x", "https://"));
    assert!(!starts_with("http", "https"));
    assert!(ends_with("raport.pdf", ".pdf"));
    assert!(!ends_with("pdf", ".pdf"));
    assert!(contains_text("zażółć", "żół"));
    assert!(!contains_text("zażółć", "zol"));
    assert!(contains_text("", ""));
    assert_eq!(strip_prefix("Bearer abc", "Bearer "), Some("abc".to_string()));
    assert_eq!(strip_prefix("bearer abc", "Bearer "), None);
}

#[test]
fn numbers_are_written_and_read() {
    assert_eq!(number(0), "0");
    assert_eq!(number(u64::MAX), "18446744073709551615");
    assert_eq!(parse_number("8080", 65535), Some(8080));
    assert_eq!(parse_number("+42", 65535), Some(42));
    assert_eq!(parse_number("65536", 65535), None);
    assert_eq!(parse_number("", 65535), None);
    assert_eq!(parse_number("+", 65535), None);
    assert_eq!(parse_number("-1", 65535), None);
    assert_eq!(parse_number(" 1", 65535), None);
    assert_eq!(parse_number("99999999999999999999999", u64::MAX), None);
    assert_eq!(parse_number("0000000000000000000000007", 9), Some(7));
}

#[test]
fn reading_a_number_undoes_writing_it() {
    for n in [0u64, 9, 10, 99, 100, 12345, u64::MAX] {
        assert_eq!(parse_number(&number(n), u64::MAX), Some(n));
    }
}

#[test]
fn lengths_and_cuts_are_in_bytes() {
    assert_eq!(byte_len("żół"), 6);
    assert_eq!(cut_at("żółw", 4), ("żó".to_string(), "łw".to_string()));
    assert_eq!(cut_at("żółw", 0), (String::new(), "żółw".to_string()));
    assert_eq!(take_chars("żółw", 2), "żó");
    assert_eq!(take_chars("żółw", 9), "żółw");
}

#[test]
fn small_text_helpers() {
    assert_eq!(concat2("a", "b"), "ab");
    assert_eq!(concat3("a", "", "c"), "ac");
    assert_eq!(string_of(&vec!['a', 'b', 'c'], 1, 3), "bc");
    assert_eq!(text_or(&None, "x"), "x");
    assert_eq!(text_or(&Some("y".to_string()), "x"), "y");
}

#[test]
fn store_finds_what_was_put_in() {
    let mut s: Store<u32> = Store::new();
    assert_eq!(s.len(), 0);
    assert!(s.get("a").is_none());
    s.insert("a".to_string(), 1);
    s.insert("b".to_string(), 2);
    s.insert("c".to_string(), 3);
    s.insert("a".to_string(), 10);
    assert_eq!(s.len(), 3);
    assert_eq!(s.get("a"), Some(&10));
    assert_eq!(s.key_at(0), "a");
    assert_eq!(*s.value_at(2), 3);
    assert_eq!(s.remove("a"), Some(10));
    assert_eq!(s.remove("a"), None);
    assert_eq!(s.len(), 2);
    assert_eq!(s.get("b"), Some(&2));
    assert_eq!(s.get("c"), Some(&3));
    assert_eq!(s.remove("b"), Some(2));
    assert_eq!(s.get("c"), Some(&3));
}

#[test]
fn repeated_members_are_found() {
    assert!(!repeats("{}", "a"));
    assert!(!repeats(r#"{"a":1}"#, "a"));
    assert!(repeats(r#"{"a":1,"a":1}"#, "a"));
    assert!(repeats(r#" { "a" : [ 1 , "a" ] , "b":{"a":2}, "a":3 } "#, "a"));
    assert!(!repeats(r#"{"a":"a","b":["a","a"],"c":{"a":1,"a":2},"A":0}"#, "a"));
    assert!(!repeats(r#"{"a":"\",\"a\":","aa":1}"#, "a"));
    assert!(!repeats("", "a"));
    assert!(!repeats(r#"{"a":1,"a\"#, "a"));
}
