use docker_registry_manager::json::{parse_json, render_json, render_json_pretty, JsonNumber, JsonValue};

#[test]
fn json_text_is_read_into_a_tree() {
    let value = parse_json("{\"a\":[1,-2,1.5,true,null,\"s\"],\"b\":{\"c\":18446744073709551615}}").unwrap();
    let a = value.get("a").unwrap().as_array().unwrap();
    assert_eq!(a[0], JsonValue::Number(JsonNumber::Unsigned(1)));
    assert_eq!(a[1], JsonValue::Number(JsonNumber::Negative(-2)));
    assert_eq!(a[2], JsonValue::Number(JsonNumber::Float));
    assert_eq!(a[3], JsonValue::Bool(true));
    assert_eq!(a[4], JsonValue::Null);
    assert_eq!(a[5], JsonValue::Text("s".to_string()));
    assert_eq!(value.get("b").unwrap().u64_member("c"), Some(u64::MAX));
    assert_eq!(value.get("b").unwrap().i32_member("c"), None);
    assert!(value.get("missing").is_none());
}

#[test]
fn members_keep_the_order_of_the_text() {
    let value = parse_json("{\"z\":1,\"a\":2,\"m\":3}").unwrap();
    match value {
        JsonValue::Object(members) => {
            let names: Vec<&str> = members.iter().map(|(k, _)| k.as_str()).collect();
            assert_eq!(names, vec!["z", "a", "m"]);
        }
        _ => panic!("not an object"),
    }
}

#[test]
fn text_that_is_no_json_is_an_error() {
    assert!(parse_json("{").is_err());
    assert!(parse_json("").is_err());
    assert!(parse_json("[1,]").is_err());
    assert_eq!(parse_json("nul"), Err("EOF while parsing a value at line 1 column 3".to_string()));
}

#[test]
fn json_tree_is_written_as_text() {
    let value = JsonValue::Object(vec![
        ("b".to_string(), JsonValue::Number(JsonNumber::Unsigned(1))),
        (
            "a".to_string(),
            JsonValue::Array(vec![JsonValue::Null, JsonValue::Bool(false), JsonValue::Number(JsonNumber::Negative(-3))]),
        ),
        ("t".to_string(), JsonValue::Text("q\"uote".to_string())),
    ]);
    assert_eq!(render_json(&value), Ok("{\"b\":1,\"a\":[null,false,-3],\"t\":\"q\\\"uote\"}".to_string()));
    assert_eq!(
        render_json_pretty(&JsonValue::Array(vec![JsonValue::Number(JsonNumber::Unsigned(1))])),
        Ok("[\n  1\n]".to_string())
    );
    let text = render_json(&value).unwrap();
    assert_eq!(parse_json(&text), Ok(value));
}

#[test]
fn number_whose_value_was_not_kept_cannot_be_written() {
    let error = Err("a number whose value was not kept cannot be written".to_string());
    assert_eq!(render_json(&JsonValue::Number(JsonNumber::Float)), error);
    let deep = JsonValue::Array(vec![
        JsonValue::Null,
        JsonValue::Object(vec![("a".to_string(), JsonValue::Array(vec![JsonValue::Number(JsonNumber::Float)]))]),
    ]);
    assert_eq!(render_json(&deep), error);
    assert_eq!(render_json_pretty(&deep), error);
    let read = parse_json("[1.5]").unwrap();
    assert_eq!(render_json(&read), error);
}
