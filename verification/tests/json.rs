use live_sports::error::Error;
use live_sports::json::{
    get_array, get_array_from_value, get_bool, get_object, get_object_from_value, get_str,
    get_str_from_value, get_u64, get_u64_from_value, get_u64_str, get_u64_str_from_value,
    parse_json, Json, JsonMap,
};
use live_sports::provider::parse_object;

fn sample() -> Json {
    parse_json(
        r#"{"o": {"x": 1}, "a": [1, "two", null], "s": "text", "n": 42, "big": 18446744073709551615,
            "neg": -1, "frac": 1.5, "ns": "17", "plus": "+17", "bad": "1x", "t": true, "f": false,
            "z": null, "e": ""}"#,
    )
    .unwrap()
}

fn sample_map() -> JsonMap {
    match sample() {
        Json::Object(map) => map,
        other => panic!("not an object: {:?}", other),
    }
}

fn parse_error<T: std::fmt::Debug>(r: Result<T, Error>) -> String {
    match r {
        Err(Error::ParseError(message)) => message,
        other => panic!("expected a parse error, got {:?}", other),
    }
}

#[test]
fn parse_json_reads_every_kind_of_value() {
    let map = sample_map();
    assert!(matches!(map.get("z"), Some(Json::Null)));
    assert!(matches!(map.get("t"), Some(Json::Bool(true))));
    assert!(matches!(map.get("f"), Some(Json::Bool(false))));
    assert!(matches!(map.get("n"), Some(Json::Number(Some(42)))));
    assert!(matches!(map.get("big"), Some(Json::Number(Some(u64::MAX)))));
    assert!(matches!(map.get("neg"), Some(Json::Number(None))));
    assert!(matches!(map.get("frac"), Some(Json::Number(None))));
    assert!(matches!(map.get("s"), Some(Json::Str(s)) if s == "text"));
    assert!(matches!(map.get("a"), Some(Json::Array(items)) if items.len() == 3));
    assert!(matches!(map.get("o"), Some(Json::Object(inner)) if inner.entries.len() == 1));
    assert!(map.get("missing").is_none());
    assert_eq!(map.entries.len(), 14);
}

#[test]
fn parse_json_keeps_nested_values() {
    let json = parse_json(r#"[[1, [2, {"k": ["v"]}]], {}]"#).unwrap();
    match json {
        Json::Array(outer) => {
            assert_eq!(outer.len(), 2);
            match &outer[0] {
                Json::Array(inner) => match &inner[1] {
                    Json::Array(deep) => {
                        assert!(matches!(deep[0], Json::Number(Some(2))));
                        assert!(matches!(deep[1].get("k"), Some(Json::Array(v)) if v.len() == 1));
                    }
                    other => panic!("{:?}", other),
                },
                other => panic!("{:?}", other),
            }
            assert!(matches!(&outer[1], Json::Object(m) if m.entries.is_empty()));
        }
        other => panic!("{:?}", other),
    }
}

#[test]
fn parse_json_refuses_what_is_no_document() {
    for bad in ["", "{", "{\"a\": }", "nope", "[1, 2", "{\"a\": 1} trailing"] {
        assert!(matches!(parse_json(bad), Err(Error::DeserializationError(_))), "{:?}", bad);
    }
}

#[test]
fn parse_object_wants_an_object() {
    assert!(parse_object("{\"a\": 1}").is_ok());
    assert!(matches!(parse_object("[1]"), Err(Error::DeserializationError(_))));
    assert!(matches!(parse_object("\"text\""), Err(Error::DeserializationError(_))));
    assert!(matches!(parse_object("{"), Err(Error::DeserializationError(_))));
}

#[test]
fn a_name_that_stands_twice_is_found_once() {
    let map = JsonMap {
        entries: vec![
            ("k".to_string(), Json::Number(Some(1))),
            ("k".to_string(), Json::Number(Some(2))),
        ],
    };
    assert_eq!(get_u64(&map, "k").unwrap(), 1);
    let parsed = parse_object(r#"{"k": 1, "k": 2}"#).unwrap();
    assert_eq!(parsed.entries.len(), 1);
    assert_eq!(get_u64(&parsed, "k").unwrap(), 2);
}

#[test]
fn get_on_what_is_no_object_finds_nothing() {
    assert!(Json::Null.get("a").is_none());
    assert!(Json::Array(vec![]).get("a").is_none());
    assert!(Json::Str("a".to_string()).get("a").is_none());
    assert_eq!(parse_error(get_str_from_value(&Json::Null, "a")), "a not present");
}

#[test]
fn equals_text_compares_strings_only() {
    assert!(Json::Str("Postponed".to_string()).equals_text("Postponed"));
    assert!(!Json::Str("Final".to_string()).equals_text("Postponed"));
    assert!(!Json::Null.equals_text(""));
    assert!(!Json::Number(Some(1)).equals_text("1"));
}

#[test]
fn getters_fetch_fields_of_the_right_kind() {
    let json = sample();
    let map = sample_map();
    assert_eq!(get_object_from_value(&json, "o").unwrap().entries.len(), 1);
    assert_eq!(get_object(&map, "o").unwrap().entries.len(), 1);
    assert_eq!(get_array_from_value(&json, "a").unwrap().len(), 3);
    assert_eq!(get_array(&map, "a").unwrap().len(), 3);
    assert_eq!(get_str_from_value(&json, "s").unwrap(), "text");
    assert_eq!(get_str(&map, "s").unwrap(), "text");
    assert_eq!(get_str(&map, "e").unwrap(), "");
    assert_eq!(get_u64_from_value(&json, "n").unwrap(), 42);
    assert_eq!(get_u64(&map, "n").unwrap(), 42);
    assert_eq!(get_u64(&map, "big").unwrap(), u64::MAX);
    assert_eq!(get_u64_str_from_value(&json, "ns").unwrap(), 17);
    assert_eq!(get_u64_str(&map, "ns").unwrap(), 17);
    assert_eq!(get_u64_str(&map, "plus").unwrap(), 17);
    assert!(get_bool(&map, "t").unwrap());
    assert!(!get_bool(&map, "f").unwrap());
}

#[test]
fn getters_name_the_field_that_is_missing() {
    let json = sample();
    let map = sample_map();
    assert_eq!(parse_error(get_object_from_value(&json, "nope")), "nope not present");
    assert_eq!(parse_error(get_array_from_value(&json, "nope")), "nope not present");
    assert_eq!(parse_error(get_str_from_value(&json, "nope")), "nope not present");
    assert_eq!(parse_error(get_u64_from_value(&json, "nope")), "nope not present");
    assert_eq!(parse_error(get_u64_str_from_value(&json, "nope")), "nope not present");
    assert_eq!(parse_error(get_object(&map, "nope")), "nope not present");
    assert_eq!(parse_error(get_array(&map, "nope")), "nope not present");
    assert_eq!(parse_error(get_str(&map, "nope")), "nope not present");
    assert_eq!(parse_error(get_u64(&map, "nope")), "nope not present");
    assert_eq!(parse_error(get_u64_str(&map, "nope")), "nope not present");
    assert_eq!(parse_error(get_bool(&map, "nope")), "nope not present");
}

#[test]
fn getters_name_the_field_of_the_wrong_kind() {
    let json = sample();
    let map = sample_map();
    assert_eq!(parse_error(get_object_from_value(&json, "a")), "a is not an object");
    assert_eq!(parse_error(get_object(&map, "s")), "s is not an object");
    assert_eq!(parse_error(get_array_from_value(&json, "o")), "o is not an array");
    assert_eq!(parse_error(get_array(&map, "z")), "z is not an array");
    assert_eq!(parse_error(get_str_from_value(&json, "n")), "n is not a string");
    assert_eq!(parse_error(get_str(&map, "z")), "z is not a string");
    assert_eq!(parse_error(get_u64_from_value(&json, "ns")), "ns is not an integer");
    assert_eq!(parse_error(get_u64(&map, "neg")), "neg is not an integer");
    assert_eq!(parse_error(get_u64(&map, "frac")), "frac is not an integer");
    assert_eq!(parse_error(get_u64(&map, "t")), "t is not an integer");
    assert_eq!(parse_error(get_u64_str_from_value(&json, "n")), "n is not a string");
    assert_eq!(parse_error(get_u64_str(&map, "bad")), "bad is not an integer from string");
    assert_eq!(parse_error(get_u64_str(&map, "e")), "e is not an integer from string");
    assert_eq!(parse_error(get_u64_str(&map, "s")), "s is not an integer from string");
    assert_eq!(parse_error(get_bool(&map, "n")), "n is not a bool");
    assert_eq!(parse_error(get_bool(&map, "s")), "s is not a bool");
}

#[test]
fn error_messages_can_be_read() {
    assert_eq!(Error::ParseError("p".to_string()).message(), "p");
    assert_eq!(Error::FetchError("f".to_string()).message(), "f");
    assert_eq!(Error::InvalidSportType("i".to_string()).message(), "i");
    assert_eq!(Error::DeserializationError("d".to_string()).message(), "d");
    assert_eq!(Error::TimeParseError("t".to_string()).message(), "t");
    assert_eq!(Error::IntegerParseError("n".to_string()).message(), "n");
    assert_eq!(Error::UnknownStatus("u".to_string()).message(), "u");
}
