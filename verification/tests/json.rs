use arb::json::{list_text, member_or_empty, ping_text, read_text, request_text, single_text};
use serde_json::Value;

fn text(s: &str) -> Value {
    Value::String(s.to_string())
}

fn object(members: Vec<(&str, Value)>) -> Value {
    let mut m = serde_json::Map::new();
    for (k, v) in members {
        m.insert(k.to_string(), v);
    }
    Value::Object(m)
}

#[test]
fn requests_are_what_serde_writes() {
    let odd = "a\"b\\c\n\t\u{1}\u{1f}\u{7f}\u{e9}";
    let param = single_text("token", odd);
    assert_eq!(param, object(vec![("token", text(odd))]).to_string());
    let whole = request_text("login", &param);
    let want = object(vec![("method", text("login")), ("param", object(vec![("token", text(odd))]))]);
    assert_eq!(whole, want.to_string());
    assert_eq!(ping_text(), object(vec![("method", text("ping"))]).to_string());
}

#[test]
fn control_characters_are_escaped() {
    for n in 0u32..128 {
        let c = char::from_u32(n).unwrap();
        let s = format!("x{}y", c);
        assert_eq!(single_text("k", &s), object(vec![("k", text(&s))]).to_string());
    }
    assert_eq!(single_text("k", "\u{1b}"), "{\"k\":\"\\u001b\"}");
}

#[test]
fn plain_text_is_only_quoted() {
    assert_eq!(single_text("symbol", "TAO_USDT"), "{\"symbol\":\"TAO_USDT\"}");
}

#[test]
fn lists_of_texts() {
    let none: Vec<String> = Vec::new();
    assert_eq!(list_text(&none), "[]");
    let two = vec!["a".to_string(), "b\"".to_string()];
    assert_eq!(list_text(&two), Value::Array(vec![text("a"), text("b\"")]).to_string());
}

#[test]
fn text_members() {
    let v = object(vec![("channel", text("pong")), ("code", Value::from(3)), ("none", Value::Null)]);
    assert_eq!(member_or_empty(&v, "channel"), "pong");
    assert_eq!(member_or_empty(&v, "code"), "");
    assert_eq!(member_or_empty(&v, "none"), "");
    assert_eq!(member_or_empty(&v, "missing"), "");
    assert_eq!(member_or_empty(&Value::Array(vec![]), "channel"), "");
    assert_eq!(read_text(&v, "channel"), Some("pong".to_string()));
    assert_eq!(read_text(&v, "code"), None);
    assert_eq!(read_text(&text("pong"), "channel"), None);
}
