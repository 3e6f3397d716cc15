use statsig::json::{
    find_member, json_pairs, json_strings, merge_json_value, set_member, JsonMember, JsonValue,
};

fn s(text: &str) -> JsonValue {
    JsonValue::String(text.to_string())
}

fn n(text: &str) -> JsonValue {
    JsonValue::Number(text.to_string())
}

fn member(name: &str, value: JsonValue) -> JsonMember {
    JsonMember { name: name.to_string(), value }
}

fn object(members: Vec<(&str, JsonValue)>) -> JsonValue {
    JsonValue::Object(members.into_iter().map(|(k, v)| member(k, v)).collect())
}

#[test]
fn to_text_writes_compact_json() {
    assert_eq!(JsonValue::Null.to_text(), "null");
    assert_eq!(JsonValue::Bool(true).to_text(), "true");
    assert_eq!(JsonValue::Bool(false).to_text(), "false");
    assert_eq!(n("12.5").to_text(), "12.5");
    assert_eq!(s("a").to_text(), "\"a\"");
    assert_eq!(JsonValue::Array(vec![]).to_text(), "[]");
    assert_eq!(JsonValue::Array(vec![n("1"), s("x"), JsonValue::Null]).to_text(), "[1,\"x\",null]");
    assert_eq!(object(vec![]).to_text(), "{}");
    assert_eq!(
        object(vec![("a", n("1")), ("b", JsonValue::Array(vec![JsonValue::Bool(true)]))]).to_text(),
        "{\"a\":1,\"b\":[true]}"
    );
}

#[test]
fn to_text_escapes_strings_as_serde_json_does() {
    let text = "quote \" backslash \\ newline \n tab \t bell \u{7} é";
    let expected = serde_json::Value::String(text.to_string()).to_string();
    assert_eq!(s(text).to_text(), expected);
    assert_ne!(s(text).to_text(), text);
    let doc = object(vec![("k\"ey", s("v\nalue"))]);
    let mut map = serde_json::Map::new();
    map.insert("k\"ey".to_string(), serde_json::Value::String("v\nalue".to_string()));
    assert_eq!(doc.to_text(), serde_json::Value::Object(map).to_string());
}

#[test]
fn equals_is_structural() {
    assert!(JsonValue::Null.equals(&JsonValue::Null));
    assert!(n("1").equals(&n("1")));
    assert!(!n("1").equals(&n("1.0")));
    assert!(!n("1").equals(&s("1")));
    assert!(!JsonValue::Bool(true).equals(&JsonValue::Bool(false)));
    let a = JsonValue::Array(vec![n("1"), object(vec![("k", s("v"))])]);
    let b = JsonValue::Array(vec![n("1"), object(vec![("k", s("v"))])]);
    let c = JsonValue::Array(vec![n("1"), object(vec![("k", s("w"))])]);
    let d = JsonValue::Array(vec![n("1")]);
    assert!(a.equals(&b));
    assert!(!a.equals(&c));
    assert!(!a.equals(&d));
}

#[test]
fn equals_does_not_mind_the_order_of_members() {
    let a = object(vec![("a", n("1")), ("b", n("2"))]);
    let b = object(vec![("b", n("2")), ("a", n("1"))]);
    assert!(a.equals(&b));
    assert!(b.equals(&a));
    let c = object(vec![("b", n("2")), ("a", n("9"))]);
    assert!(!a.equals(&c));
    let d = object(vec![("b", n("2")), ("c", n("1"))]);
    assert!(!a.equals(&d));
    assert!(!d.equals(&a));
    let e = object(vec![("a", n("1"))]);
    assert!(!a.equals(&e));
    assert!(!e.equals(&a));
    let nested_a = JsonValue::Array(vec![object(vec![("x", a.duplicate()), ("y", s("v"))])]);
    let nested_b = JsonValue::Array(vec![object(vec![("y", s("v")), ("x", b.duplicate())])]);
    assert!(nested_a.equals(&nested_b));
    let swapped = JsonValue::Array(vec![n("1"), n("2")]);
    let other = JsonValue::Array(vec![n("2"), n("1")]);
    assert!(!swapped.equals(&other));
    assert!(object(vec![]).equals(&object(vec![])));
    assert!(!object(vec![]).equals(&JsonValue::Array(vec![])));
}

#[test]
fn duplicate_and_clone_copy_the_value() {
    let a = JsonValue::Array(vec![n("1"), object(vec![("k", s("v")), ("l", JsonValue::Null)])]);
    assert!(a.duplicate().equals(&a));
    assert!(a.clone().equals(&a));
}

#[test]
fn members_are_found_and_set_by_name() {
    let mut members = vec![member("a", n("1")), member("b", n("2"))];
    assert_eq!(find_member(&members, "b"), Some(1));
    assert_eq!(find_member(&members, "z"), None);
    set_member(&mut members, "a", n("9"));
    set_member(&mut members, "c", n("3"));
    assert_eq!(JsonValue::Object(members).to_text(), "{\"a\":9,\"b\":2,\"c\":3}");
}

#[test]
fn merge_lays_the_right_object_over_the_left() {
    let left = object(vec![("a", n("1")), ("b", n("2"))]);
    let right = object(vec![("b", n("20")), ("c", n("30"))]);
    assert_eq!(merge_json_value(&left, right).to_text(), "{\"a\":1,\"b\":20,\"c\":30}");
    assert_eq!(merge_json_value(&left, JsonValue::Null).to_text(), "{\"a\":1,\"b\":2}");
    assert_eq!(merge_json_value(&JsonValue::Null, object(vec![("a", n("1"))])).to_text(), "null");
}

#[test]
fn strings_and_pairs_become_json() {
    assert_eq!(json_strings(&vec!["a".to_string(), "b".to_string()]).to_text(), "[\"a\",\"b\"]");
    assert_eq!(
        json_pairs(&vec![("k".to_string(), "v".to_string()), ("l".to_string(), "w".to_string())])
            .to_text(),
        "{\"k\":\"v\",\"l\":\"w\"}"
    );
}
