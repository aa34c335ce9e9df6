use aionui_ai_agent::json::{
    canonicalize_json, clone_entries, clone_json, json_to_string, push_entry, set_entry, JsonValue,
};
use aionui_ai_agent::outside::hex_encode;
use aionui_ai_agent::redaction::{
    redact_secret_text, redact_url_queries_in_text, strip_url_secret_parts,
};
use aionui_ai_agent::text::{
    chars_of, contains_text, decimal_string, find_text, join_chars, lower_chars,
    parse_number, split_text_once, split_words, string_of, strip_text_prefix, trim_chars, utf8_len,
    Separator,
};
use aionui_ai_agent::text_map::TextMap;

fn text(chars: &[char]) -> String {
    string_of(chars)
}

#[test]
fn texts_are_cut_and_put_together() {
    assert_eq!(text(&trim_chars(&chars_of("\u{a0} a b \n"))), "a b");
    let parts = split_words(Separator::White, &chars_of("  one\ttwo\u{2003}three "));
    assert_eq!(parts.len(), 3);
    assert_eq!(text(&join_chars(&parts, "-")), "one-two-three");
    assert_eq!(text(&lower_chars(&chars_of("ÀBc"))), "Àbc");
    assert!(contains_text(&chars_of("haystack"), "stack"));
    assert_eq!(find_text(&chars_of("aXbX"), "X"), Some(1));
    let (left, right) = split_text_once(&chars_of("a__b__c"), "__").unwrap();
    assert_eq!((text(&left), text(&right)), ("a".to_owned(), "b__c".to_owned()));
    assert_eq!(text(&strip_text_prefix(&chars_of("mcp__x"), "mcp__").unwrap()), "x");
    assert_eq!(aionui_ai_agent::text::concat("ab", "é"), "abé");
    assert_eq!(utf8_len("é€"), 5);
}

#[test]
fn numbers_are_read_back() {
    for n in [0, 7, 10, 4_294_967_295, u64::MAX] {
        assert_eq!(decimal_string(n), n.to_string());
        assert_eq!(parse_number(&chars_of(&n.to_string()), u64::MAX), Some(n));
    }
    assert_eq!(parse_number(&chars_of("256"), 255), None);
    assert_eq!(parse_number(&chars_of(""), 255), None);
    assert_eq!(parse_number(&chars_of("1a"), 255), None);
    assert_eq!(parse_number(&chars_of("18446744073709551616"), u64::MAX), None);
}

#[test]
fn canonical_form_sorts_the_keys_at_every_depth() {
    let value = JsonValue::Object(vec![
        ("b".to_owned(), JsonValue::Array(vec![JsonValue::Object(vec![
            ("z".to_owned(), JsonValue::Null),
            ("a".to_owned(), JsonValue::Number("1".to_owned())),
        ])])),
        ("a".to_owned(), JsonValue::Bool(false)),
    ]);
    let canonical = canonicalize_json(&value);
    assert_eq!(json_to_string(&canonical), r#"{"a":false,"b":[{"a":1,"z":null}]}"#);
    assert_eq!(
        json_to_string(&canonicalize_json(&canonical)),
        json_to_string(&canonical)
    );
    assert_eq!(json_to_string(&clone_json(&value)), json_to_string(&value));
}

#[test]
fn json_text_is_escaped() {
    let value = JsonValue::Text("a\"b\\c\n\u{1}é".to_owned());
    assert_eq!(
        json_to_string(&value),
        serde_json::to_string("a\"b\\c\n\u{1}é").unwrap()
    );
    assert_eq!(json_to_string(&value), "\"a\\\"b\\\\c\\n\\u0001é\"");
}

#[test]
fn entry_that_was_set_is_found() {
    let mut entries: Vec<(String, JsonValue)> = Vec::new();
    push_entry(&mut entries, "a", JsonValue::Null);
    set_entry(&mut entries, "a", JsonValue::Bool(true));
    set_entry(&mut entries, "b", JsonValue::Bool(false));
    let object = JsonValue::Object(entries);
    assert_eq!(json_to_string(&object), r#"{"a":true,"b":false}"#);
    assert!(object.get("c").is_none());
}

#[test]
fn map_holds_each_key_once() {
    let mut map: TextMap<u32> = TextMap::new();
    map.insert("a", 1);
    map.insert("b", 2);
    map.insert("a", 3);
    assert_eq!(map.len(), 2);
    assert_eq!(map.get("a"), Some(&3));
    assert_eq!(map.remove("b"), Some(2));
    assert!(!map.contains_key("b"));
    assert_eq!(map.drain(), vec![("a".to_owned(), 3)]);
    assert_eq!(map.len(), 0);
}

#[test]
fn address_loses_its_query_and_its_fragment() {
    assert_eq!(strip_url_secret_parts("https://a.test/x?y#z"), "https://a.test/x");
    assert_eq!(strip_url_secret_parts("https://a.test/x#z?y"), "https://a.test/x");
    assert_eq!(strip_url_secret_parts("plain"), "plain");
}

#[test]
fn queries_are_taken_out_of_addresses_alone() {
    assert_eq!(
        redact_url_queries_in_text("see http://a.test/?k=v&w=x, or\thttps://b.test?q now? \n"),
        "see http://a.test/?[redacted] or\thttps://b.test?[redacted] now? \n"
    );
    let once = redact_url_queries_in_text("x https://a.test?secret y");
    assert_eq!(once, redact_url_queries_in_text(&once));
    assert_eq!(once, redact_url_queries_in_text("x https://a.test?other y"));
    assert_eq!(redact_url_queries_in_text(""), "");
}

#[test]
fn secrets_are_taken_out_by_name_and_by_shape() {
    assert_eq!(
        redact_secret_text("password=hunter2; next").unwrap(),
        "password= [redacted]; next"
    );
    assert_eq!(
        redact_secret_text("token ghp_abcdefgh12 ends").unwrap(),
        "token [redacted] ends"
    );
    assert_eq!(redact_secret_text("nothing here").unwrap(), "nothing here");
}

#[test]
fn string_literals_escape_what_json_cannot_hold() {
    let text = "\"\\/\u{8}\u{c}\n\r\t\0\u{1f}\u{7f}\u{e9}\u{1f600}";
    let literal = json_to_string(&JsonValue::Text(text.to_owned()));
    assert_eq!(
        literal,
        "\"\\\"\\\\/\\b\\f\\n\\r\\t\\u0000\\u001f\u{7f}\u{e9}\u{1f600}\""
    );
    assert_eq!(serde_json::from_str::<String>(&literal).unwrap(), text);
}

#[test]
fn bytes_are_written_in_lower_case_hexadecimal() {
    assert_eq!(hex_encode(&[]), "");
    assert_eq!(hex_encode(&[0, 9, 10, 15, 16, 171, 255]), "00090a0f10abff");
}

#[test]
fn entries_are_copied() {
    let entries = Some(vec![("k".to_owned(), JsonValue::Bool(true))]);
    let copy = clone_entries(&entries).unwrap();
    assert_eq!(copy.len(), 1);
    assert_eq!(copy[0].0, "k");
    assert!(matches!(copy[0].1, JsonValue::Bool(true)));
    assert!(clone_entries(&None).is_none());
}
