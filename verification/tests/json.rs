use anthropic_provider::json::{Json, Number};

fn parse(text: &str) -> Json {
    Json::parse(text).unwrap()
}

#[test]
fn json_numbers() {
    assert!(matches!(parse("15"), Json::Number(Number::PosInt(15))));
    assert!(matches!(parse("-3"), Json::Number(Number::NegInt(-3))));
    match parse("0.5") {
        Json::Number(Number::Double(bits)) => assert_eq!(f64::from_bits(bits), 0.5),
        other => panic!("expected a double, got {other:?}"),
    }
    assert_eq!(parse("15").as_u64(), Some(15));
    assert_eq!(parse("-3").as_u64(), None);
    assert_eq!(parse("15.0").as_u64(), None);
    assert_eq!(parse("18446744073709551615").as_u64(), Some(u64::MAX));
}

#[test]
fn json_kinds() {
    assert!(matches!(parse("null"), Json::Null));
    assert!(matches!(parse("true"), Json::Bool(true)));
    assert_eq!(parse("\"a\\u00e9\"").as_str(), Some("aé"));
    assert_eq!(parse("[1,2,3]").as_array().unwrap().len(), 3);
    assert_eq!(parse("[1,2,3]").as_array().unwrap()[1].as_u64(), Some(2));
    assert!(parse("{}").as_array().is_none());
    assert!(Json::parse("not-json").is_none());
    assert!(Json::parse("").is_none());
}

#[test]
fn json_members() {
    let v = parse("{\"a\":{\"b\":\"c\"},\"n\":7}");
    assert_eq!(v.get("a").unwrap().str_at("b"), Some("c"));
    assert_eq!(v.u64_at("n"), Some(7));
    assert!(v.get("missing").is_none());
    assert!(v.get("n").unwrap().get("b").is_none());
    assert_eq!(v.str_at("n"), None);
}

#[test]
fn json_last_of_equal_keys_counts() {
    assert_eq!(parse("{\"a\":1,\"a\":2}").u64_at("a"), Some(2));
    let twice = Json::Object(vec![
        ("a".to_string(), Json::Bool(false)),
        ("a".to_string(), Json::Bool(true)),
    ]);
    assert!(matches!(twice.get("a"), Some(Json::Bool(true))));
}

#[test]
fn json_from_value_keeps_the_document() {
    let mut map = serde_json::Map::new();
    map.insert("k".to_string(), serde_json::Value::Array(vec![
        serde_json::Value::Null,
        serde_json::Value::Bool(true),
        serde_json::Value::String("s".to_string()),
        serde_json::Value::from(4096u64),
        serde_json::Value::from(-1i64),
    ]));
    let j = Json::from_value(serde_json::Value::Object(map));
    let items = j.get("k").unwrap().as_array().unwrap();
    assert_eq!(items.len(), 5);
    assert!(matches!(items[0], Json::Null));
    assert!(matches!(items[1], Json::Bool(true)));
    assert_eq!(items[2].as_str(), Some("s"));
    assert_eq!(items[3].as_u64(), Some(4096));
    assert!(matches!(items[4], Json::Number(Number::NegInt(-1))));
}

#[test]
fn json_clone_is_deep() {
    let v = parse("{\"a\":[1,{\"b\":\"c\"}]}");
    let w = v.clone();
    drop(v);
    assert_eq!(w.get("a").unwrap().as_array().unwrap()[1].str_at("b"), Some("c"));
}
