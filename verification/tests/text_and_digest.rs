use apkg_deck::digest::{content_hash, to_hex};
use apkg_deck::extract::{
    deck_store_paths, get_card_count, get_card_count_from_deck, greet, join_path, StoreProbe,
};
use apkg_deck::json::{parse_json, Json};
use apkg_deck::search::{find_from, find_in};
use apkg_deck::text::{
    chars_of, is_space_char, join_fields, parse_i64, same_text, split_text, trim_text,
    FIELD_SEPARATOR,
};

fn v(s: &str) -> Vec<char> {
    s.chars().collect()
}

#[test]
fn split_cuts_at_unit_separator() {
    let parts = split_text("front\u{1f}back\u{1f}", FIELD_SEPARATOR);
    assert_eq!(parts, vec!["front".to_string(), "back".to_string(), String::new()]);
}

#[test]
fn split_of_empty_text_is_one_empty_field() {
    assert_eq!(split_text("", FIELD_SEPARATOR), vec![String::new()]);
}

#[test]
fn split_keeps_text_without_separator_whole() {
    assert_eq!(split_text("héllo wörld", FIELD_SEPARATOR), vec!["héllo wörld".to_string()]);
}

#[test]
fn join_restores_split_text() {
    let text = "a\u{1f}\u{1f}b c\u{1f}";
    assert_eq!(join_fields(&split_text(text, FIELD_SEPARATOR)), text);
}

#[test]
fn split_restores_joined_fields() {
    let fields = vec!["one".to_string(), String::new(), "drei €".to_string()];
    assert_eq!(join_fields(&fields), "one\u{1f}\u{1f}drei €");
    assert_eq!(split_text(&join_fields(&fields), FIELD_SEPARATOR), fields);
}

#[test]
fn joined_empty_list_splits_to_one_empty_field() {
    let none: Vec<String> = Vec::new();
    assert_eq!(join_fields(&none), "");
    assert_eq!(split_text(&join_fields(&none), FIELD_SEPARATOR), vec![String::new()]);
}

#[test]
fn chars_of_counts_characters_not_bytes() {
    assert_eq!(chars_of("aé€"), vec!['a', 'é', '€']);
}

#[test]
fn same_text_compares_contents() {
    assert!(same_text("anki21b", "anki21b"));
    assert!(!same_text("anki21b", "anki21"));
    assert!(!same_text("é", "e"));
    assert!(same_text("", ""));
}

#[test]
fn find_gives_first_occurrence() {
    assert_eq!(find_in(&v("a\n\nb\n\nc"), &v("\n\n")), Some(1));
    assert_eq!(find_from(&v("a\n\nb\n\nc"), &v("\n\n"), 2), Some(4));
    assert_eq!(find_in(&v("abc"), &v("\n\n")), None);
    assert_eq!(find_in(&v("abc"), &v("")), Some(0));
    assert_eq!(find_from(&v("abc"), &v(""), 3), Some(3));
    assert_eq!(find_from(&v("abc"), &v("c"), 7), None);
}

#[test]
fn trim_text_drops_white_space_at_both_ends() {
    assert_eq!(trim_text(" \t\u{a0}x y\u{3000}\n"), "x y");
    assert_eq!(trim_text(" \n "), "");
    assert_eq!(trim_text(""), "");
    assert_eq!(trim_text("x"), "x");
    assert_eq!(trim_text("\u{feff}x"), "\u{feff}x");
}

#[test]
fn white_space_is_what_std_calls_white_space() {
    for n in 0u32..0x3100 {
        if let Some(c) = char::from_u32(n) {
            assert_eq!(is_space_char(c), c.is_whitespace(), "{:x}", n);
        }
    }
    for text in ["  a b  ", "\u{2003}x\u{2028}", "\u{200b}x", "\r\n x \r\n"] {
        assert_eq!(trim_text(text), text.trim());
    }
}

#[test]
fn parse_i64_reads_signed_decimals() {
    assert_eq!(parse_i64("1580121962837"), Some(1580121962837));
    assert_eq!(parse_i64("-42"), Some(-42));
    assert_eq!(parse_i64("+7"), Some(7));
    assert_eq!(parse_i64("007"), Some(7));
    assert_eq!(parse_i64("9223372036854775807"), Some(i64::MAX));
    assert_eq!(parse_i64("-9223372036854775808"), Some(i64::MIN));
}

#[test]
fn parse_i64_rejects_what_is_no_number() {
    assert_eq!(parse_i64(""), None);
    assert_eq!(parse_i64("-"), None);
    assert_eq!(parse_i64("+"), None);
    assert_eq!(parse_i64("12a"), None);
    assert_eq!(parse_i64(" 12"), None);
    assert_eq!(parse_i64("1.5"), None);
    assert_eq!(parse_i64("9223372036854775808"), None);
    assert_eq!(parse_i64("-9223372036854775809"), None);
    assert_eq!(parse_i64("99999999999999999999999"), None);
}

#[test]
fn parse_i64_agrees_with_std() {
    for s in ["0", "-0", "+0", "123", "-123", "00012", "1_000", "٣", "--1", "+-1"] {
        assert_eq!(parse_i64(s), s.parse::<i64>().ok(), "{}", s);
    }
}

#[test]
fn to_hex_writes_two_lower_case_digits_per_byte() {
    assert_eq!(to_hex(&[0x00, 0x0f, 0xa5, 0xff]), "000fa5ff");
    assert_eq!(to_hex(&[]), "");
}

#[test]
fn content_hash_is_md5_in_lower_hex() {
    assert_eq!(content_hash(b"abcdefghijklmnopqrstuvwxyz"), "c3fcd3d76192e4007dfb496cca67e13b");
    assert_eq!(content_hash(b""), "d41d8cd98f00b204e9800998ecf8427e");
}

#[test]
fn content_hash_is_stable_and_tells_one_byte_apart() {
    let a = b"flashcards".to_vec();
    let mut b = a.clone();
    b[3] ^= 1;
    assert_eq!(content_hash(&a), content_hash(&a.clone()));
    assert_ne!(content_hash(&a), content_hash(&b));
}

#[test]
fn parse_json_reads_object_members() {
    let doc = parse_json("{\"3\": \"a.mp3\", \"7\": 5}").unwrap();
    assert_eq!(doc.get_text("3").map(|s| s.as_str()), Some("a.mp3"));
    assert!(doc.get_text("7").is_none());
    assert!(matches!(doc.get("7"), Some(Json::Number(n)) if n == "5"));
    assert!(doc.get("9").is_none());
}

#[test]
fn parse_json_rejects_what_is_no_document() {
    assert!(parse_json("{").is_none());
    assert!(parse_json("").is_none());
    assert!(parse_json("{} {}").is_none());
}

#[test]
fn parse_json_keeps_every_kind_of_value() {
    let doc = parse_json("[null, true, -1.5, \"x\", [], {\"k\": [1]}]").unwrap();
    let items = doc.as_array().unwrap();
    assert_eq!(items.len(), 6);
    assert_eq!(items[0], Json::Null);
    assert_eq!(items[1], Json::Bool(true));
    assert_eq!(items[2], Json::Number("-1.5".to_string()));
    assert_eq!(items[3], Json::Text("x".to_string()));
    assert_eq!(items[4], Json::Array(vec![]));
    let members = items[5].as_object().unwrap();
    assert_eq!(members.len(), 1);
    assert_eq!(members[0].key, "k");
    assert_eq!(members[0].value, Json::Array(vec![Json::Number("1".to_string())]));
    assert!(items[5].as_array().is_none());
    assert!(items[3].as_object().is_none());
    assert!(items[0].as_text().is_none());
}

#[test]
fn greet_says_hello() {
    assert_eq!(greet("Tom"), "Hello, Tom!");
    assert_eq!(greet(""), "Hello, !");
}

#[test]
fn join_path_puts_one_separator_between() {
    assert_eq!(join_path("/data/decks", "abc"), "/data/decks/abc");
    assert_eq!(join_path("/data/decks/", "abc"), "/data/decks/abc");
    assert_eq!(join_path("", "abc"), "abc");
    assert_eq!(join_path("/", "abc"), "/abc");
}

#[test]
fn card_count_is_zero_on_any_failure() {
    assert_eq!(get_card_count(Some(12)), 12);
    assert_eq!(get_card_count(Some(0)), 0);
    assert_eq!(get_card_count(Some(-3)), 0);
    assert_eq!(get_card_count(None), 0);
}

#[test]
fn deck_card_count_takes_first_existing_store() {
    let found = StoreProbe { exists: true, queried: Some(5) };
    let other = StoreProbe { exists: true, queried: Some(9) };
    let broken = StoreProbe { exists: true, queried: None };
    let missing = StoreProbe { exists: false, queried: Some(7) };
    assert_eq!(get_card_count_from_deck(found, other), 5);
    assert_eq!(get_card_count_from_deck(missing, other), 9);
    assert_eq!(get_card_count_from_deck(broken, other), 0);
    assert_eq!(get_card_count_from_deck(missing, missing), 0);
}

#[test]
fn deck_store_paths_name_both_candidates() {
    let (first, second) = deck_store_paths("/docs", "abc123");
    assert_eq!(first, "/docs/anki_data/abc123/collection.sqlite");
    assert_eq!(second, "/docs/anki_data/abc123/collection.anki2");
}
