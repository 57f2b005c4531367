use gens_relay::json::{export, import, parse, to_text, Json};

#[test]
fn fields_are_read_by_kind() {
    let j = parse("{\"s\": \"x\", \"b\": true, \"n\": 7, \"neg\": -7, \"f\": 1.5, \"l\": [1, null]}").unwrap();
    assert_eq!(j.text("s"), Some("x".to_string()));
    assert_eq!(j.text("n"), None);
    assert_eq!(j.text("missing"), None);
    assert_eq!(j.boolean("b"), Some(true));
    assert_eq!(j.boolean("s"), None);
    assert_eq!(j.unsigned("n"), Some(7));
    assert_eq!(j.unsigned("neg"), None);
    assert_eq!(j.unsigned("f"), None);
    assert_eq!(j.list("l").unwrap().len(), 2);
    assert!(matches!(j.list("l").unwrap()[1], Json::Null));
    assert!(j.list("s").is_none());
    assert!(j.get("l").is_some());
    assert!(j.get("missing").is_none());
}

#[test]
fn what_is_no_object_has_no_fields() {
    for text in ["[1, 2]", "\"type\"", "3", "null", "true"] {
        let j = parse(text).unwrap();
        assert!(j.get("type").is_none());
    }
}

#[test]
fn what_is_no_json_is_not_read() {
    for text in ["", "hello", "{", "{\"a\":}", "{} {}", "[1,]", "NaN"] {
        assert!(parse(text).is_none(), "{:?}", text);
    }
}

#[test]
fn the_last_member_with_a_key_counts() {
    let j = parse("{\"a\": \"x\", \"a\": \"y\"}").unwrap();
    assert_eq!(j.text("a"), Some("y".to_string()));
    let k = Json::object().with("a", Json::of_text("x")).with("a", Json::of_text("y"));
    assert_eq!(k.text("a"), Some("y".to_string()));
    assert_eq!(to_text(k), "{\"a\":\"y\"}");
}

#[test]
fn values_are_written_compactly_with_sorted_keys() {
    let j = Json::object()
        .with("type", Json::of_text("ls"))
        .with("size", Json::Unsigned(u64::MAX))
        .with("open", Json::Bool(false))
        .with("none", Json::Null)
        .with("list", Json::List(vec![Json::of_text("a\"b\n"), Json::object()]));
    assert_eq!(
        to_text(j),
        "{\"list\":[\"a\\\"b\\n\",{}],\"none\":null,\"open\":false,\
         \"size\":18446744073709551615,\"type\":\"ls\"}"
    );
}

#[test]
fn numbers_that_were_read_are_written_as_they_came() {
    for text in ["-7", "1.5", "18446744073709551615", "0"] {
        assert_eq!(to_text(parse(text).unwrap()), text);
    }
}

#[test]
fn nesting_is_read_to_a_depth() {
    let deep = |n: usize| "[".repeat(n) + &"]".repeat(n);
    assert!(parse(&deep(127)).is_some());
    assert_eq!(to_text(parse(&deep(127)).unwrap()), deep(127));
    assert!(parse(&deep(128)).is_none());
}

#[test]
fn values_go_to_serde_json_and_back() {
    let text = "{\"a\":[1,-2,2.5,null,true,\"x\"],\"b\":{\"c\":{}}}";
    let value: serde_json::Value = serde_json::from_str(text).unwrap();
    let again = export(import(value.clone()));
    assert_eq!(again, value);
    assert_eq!(export(Json::Unsigned(7)), serde_json::Value::from(7u64));
}

#[test]
fn a_key_that_occurs_twice_is_handed_on_once() {
    let j = Json::object()
        .with("a", Json::Unsigned(1))
        .with("b", Json::Unsigned(2))
        .with("a", Json::Unsigned(3))
        .with("a", Json::Unsigned(4));
    assert_eq!(to_text(j), "{\"a\":4,\"b\":2}");
}
