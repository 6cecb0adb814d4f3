use lash_harness_opt::json::{
    parse_json, parse_json_bytes, put_member, Number,
};
use lash_harness_opt::{Json, Score, StringMap};

fn sample() -> &'static str {
    "{\"a\":[1,-2,3.5,1e300,true,false,null,\"x\\ny\"],\"b\":{},\"c\":[],\"d\":{\"e\":\"\\u0001\\u00e9\"}}"
}

#[test]
fn values_are_written_as_serde_json_writes_them() {
    let value = parse_json(sample()).unwrap();
    let outside: serde_json::Value = serde_json::from_str(sample()).unwrap();
    assert_eq!(value.to_compact(), serde_json::to_string(&outside).unwrap());
    assert_eq!(
        value.to_pretty(),
        serde_json::to_string_pretty(&outside).unwrap()
    );
}

#[test]
fn strings_are_escaped_as_serde_json_escapes_them() {
    let mut text = String::new();
    for code in 0u32..0x180 {
        if let Some(c) = char::from_u32(code) {
            text.push(c);
        }
    }
    text.push('\u{2028}');
    text.push('\u{1f600}');
    assert_eq!(
        Json::text(&text).to_compact(),
        serde_json::to_string(&text).unwrap()
    );
    assert_eq!(
        Json::text("\"\\\u{8}\t\n\u{c}\r\u{1f}\u{7f}").to_compact(),
        "\"\\\"\\\\\\b\\t\\n\\f\\r\\u001f\u{7f}\""
    );
}

#[test]
fn numbers_are_read_with_their_values() {
    let value = parse_json("[18446744073709551615,-7,0.1]").unwrap();
    let items = value.as_array().unwrap();
    assert_eq!(items[0].as_u64(), Some(u64::MAX));
    assert_eq!(items[0].as_f64().unwrap().bits, (u64::MAX as f64).to_bits());
    assert_eq!(items[1].as_u64(), None);
    assert_eq!(items[1].as_f64().unwrap().bits, (-7.0f64).to_bits());
    assert_eq!(items[1].to_compact(), "-7");
    assert_eq!(items[2].as_f64().unwrap().bits, 0.1f64.to_bits());
    assert_eq!(items[2].to_compact(), "0.1");
}

#[test]
fn unsigned_numbers_equal_those_read() {
    for n in [0u64, 1, 7, 1 << 52, (1 << 53) + 1, u64::MAX - 1000, u64::MAX] {
        assert_eq!(Json::unsigned(n), parse_json(&n.to_string()).unwrap());
    }
}

#[test]
fn parse_errors_carry_the_message() {
    let expected = serde_json::from_str::<serde_json::Value>("{\"a\":")
        .unwrap_err()
        .to_string();
    assert_eq!(parse_json("{\"a\":").unwrap_err(), expected);
    let expected = serde_json::from_slice::<serde_json::Value>(b"[\xff]")
        .unwrap_err()
        .to_string();
    assert_eq!(parse_json_bytes(b"[\xff]").unwrap_err(), expected);
    assert_eq!(
        parse_json_bytes(sample().as_bytes()).unwrap(),
        parse_json(sample()).unwrap()
    );
}

#[test]
fn members_are_found_by_name() {
    let value = parse_json(sample()).unwrap();
    assert!(value.get("b").is_some());
    assert!(value.get("z").is_none());
    assert_eq!(
        value.get("d").unwrap().get("e").unwrap().as_str().unwrap(),
        "\u{1}\u{e9}"
    );
    assert!(Json::Null.get("a").is_none());
    assert!(Json::Null.is_null());
    assert!(!Json::Bool(false).is_null());
}

#[test]
fn members_are_put_in_order() {
    let mut members = vec![
        ("b".to_string(), Json::unsigned(1)),
        ("d".to_string(), Json::unsigned(2)),
    ];
    put_member(&mut members, "c", Json::unsigned(3));
    put_member(&mut members, "b", Json::unsigned(4));
    put_member(&mut members, "e", Json::unsigned(5));
    put_member(&mut members, "a", Json::unsigned(6));
    assert_eq!(
        Json::object(members).to_compact(),
        "{\"a\":6,\"b\":4,\"c\":3,\"d\":2,\"e\":5}"
    );
}

#[test]
fn members_are_read_in_the_order_of_their_names() {
    let value = parse_json("{\"b\":[{\"z\":1,\"y\":2}],\"a\":0,\"b\":[{\"d\":3,\"c\":4}]}").unwrap();
    assert_eq!(value.to_compact(), "{\"a\":0,\"b\":[{\"c\":4,\"d\":3}]}");
    let bytes = parse_json_bytes(b"{\"b\":1,\"a\":{}}").unwrap();
    assert_eq!(bytes.to_pretty(), "{\n  \"a\": {},\n  \"b\": 1\n}");
}

#[test]
fn members_are_written_in_their_own_order() {
    let value = Json::object(vec![
        ("b".to_string(), Json::unsigned(1)),
        ("a".to_string(), Json::array(vec![])),
        ("b".to_string(), Json::unsigned(2)),
    ]);
    assert_eq!(value.to_compact(), "{\"b\":2,\"a\":[]}");
    assert_eq!(value.to_pretty(), "{\n  \"b\": 2,\n  \"a\": []\n}");
    let broken = Json::Number(Number {
        unsigned: None,
        double: Score { bits: 0 },
        text: "one".to_string(),
    });
    assert_eq!(broken.to_compact(), "null");
}

#[test]
fn doubles_without_a_form_are_null() {
    let score = |x: f64| Score { bits: x.to_bits() };
    assert_eq!(
        Json::double(score(0.5), "0.5"),
        Json::Number(Number {
            unsigned: None,
            double: score(0.5),
            text: "0.5".to_string()
        })
    );
    assert!(Json::double(score(f64::NAN), "NaN").is_null());
    assert!(Json::double(score(f64::NEG_INFINITY), "-inf").is_null());
}

#[test]
fn maps_become_objects_in_the_order_of_keys() {
    let mut map = StringMap::new();
    map.insert("b".to_string(), Json::Bool(true));
    map.insert("a".to_string(), Json::Null);
    assert_eq!(Json::of_map(&map).to_compact(), "{\"a\":null,\"b\":true}");
    assert_eq!(Json::of_map(&map).clone(), Json::of_map(&map));
}
