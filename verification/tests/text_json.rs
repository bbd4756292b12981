use mcsoftsolution_chat::json::{empty_object, has_member, json_text, parse_json, push_member, remove_member, Json};
use mcsoftsolution_chat::text::{contains_str, decimal_string, same_text, string_of, trim_chars};

fn obj(text: &str) -> Json {
    parse_json(text).expect("valid JSON")
}

#[test]
fn decimal_string_writes_digits() {
    assert_eq!(decimal_string(0), "0");
    assert_eq!(decimal_string(7), "7");
    assert_eq!(decimal_string(9999), "9999");
    assert_eq!(decimal_string(18446744073709551615), "18446744073709551615");
}

#[test]
fn contains_str_finds_substrings() {
    assert!(contains_str("MCP HTTP 401 Unauthorized: Session not found", "Session not found"));
    assert!(contains_str("abc", ""));
    assert!(!contains_str("HTTP 40", "HTTP 401"));
    assert!(contains_str("HTTP 401", "HTTP 401"));
}

#[test]
fn trim_removes_unicode_white_space() {
    let cs: Vec<char> = "\u{3000}\t hello world \n".chars().collect();
    let t = trim_chars(&cs);
    assert_eq!(string_of(&t, 0, t.len()), "hello world");
    let blank: Vec<char> = " \t\n".chars().collect();
    assert!(trim_chars(&blank).is_empty());
}

#[test]
fn same_text_compares_characters() {
    assert!(same_text("user", "user"));
    assert!(!same_text("user", "users"));
    assert!(!same_text("User", "user"));
}

#[test]
fn parse_json_reads_documents() {
    let v = obj(r#"{"a": [1, "x", true, null], "b": {"c": 2}}"#);
    let a = v.get("a").unwrap().as_array().unwrap();
    assert_eq!(a.len(), 4);
    assert_eq!(a[0].as_u64(), Some(1));
    assert_eq!(a[1].as_str().map(|s| s.as_str()), Some("x"));
    assert_eq!(a[2].as_bool(), Some(true));
    assert!(matches!(a[3], Json::Null));
    assert_eq!(v.get("b").unwrap().get("c").unwrap().as_u64(), Some(2));
    assert!(v.get("missing").is_none());
    assert!(parse_json("{not json").is_none());
    assert!(parse_json("1 2").is_none());
}

#[test]
fn as_u64_rejects_negative_and_fractional_numbers() {
    assert_eq!(obj("-3").as_u64(), None);
    assert_eq!(obj("2.5").as_u64(), None);
    assert_eq!(obj("18446744073709551615").as_u64(), Some(u64::MAX));
}

#[test]
fn get_takes_the_last_duplicate_member() {
    let members = vec![
        ("k".to_string(), Json::Str("first".to_string())),
        ("k".to_string(), Json::Str("second".to_string())),
    ];
    let v = Json::Object(members);
    assert_eq!(v.get("k").unwrap().as_str().unwrap(), "second");
    assert_eq!(json_text(&v), r#"{"k":"second"}"#);
}

#[test]
fn json_text_prints_compact_json() {
    let v = obj(r#"{ "b" : [1, 2.5, "q\"uote"], "a": {} }"#);
    assert_eq!(json_text(&v), r#"{"a":{},"b":[1,2.5,"q\"uote"]}"#);
    assert_eq!(json_text(&empty_object()), "{}");
}

#[test]
fn duplicate_copies_the_document() {
    let v = obj(r#"{"x": [1, {"y": "z"}]}"#);
    let d = v.duplicate();
    assert_eq!(json_text(&d), json_text(&v));
}

#[test]
fn member_helpers_edit_member_lists() {
    let mut m = vec![
        ("title".to_string(), Json::Str("T".to_string())),
        ("type".to_string(), Json::Str("object".to_string())),
        ("title".to_string(), Json::Null),
    ];
    assert!(has_member(&m, "title"));
    remove_member(&mut m, "title");
    assert!(!has_member(&m, "title"));
    assert!(has_member(&m, "type"));
    push_member(&mut m, "extra".to_string(), Json::Bool(false));
    assert_eq!(json_text(&Json::Object(m)), r#"{"extra":false,"type":"object"}"#);
}
