use session_core::record::{decode, encode, Session};

fn json_object(id: i32, user_id: i32) -> serde_json::Value {
    let mut fields = serde_json::Map::new();
    fields.insert(String::from("id"), serde_json::Value::from(id));
    fields.insert(String::from("user_id"), serde_json::Value::from(user_id));
    serde_json::Value::Object(fields)
}

#[test]
fn encodes_a_record_as_a_compact_object() {
    let session = Session { id: 1, user_id: 2 };
    assert_eq!(encode(&session), "{\"id\":1,\"user_id\":2}");
}

#[test]
fn encodes_negative_and_extreme_fields() {
    let session = Session { id: i32::MIN, user_id: i32::MAX };
    assert_eq!(encode(&session), "{\"id\":-2147483648,\"user_id\":2147483647}");
    let session = Session { id: -5, user_id: 0 };
    assert_eq!(encode(&session), "{\"id\":-5,\"user_id\":0}");
}

#[test]
fn decodes_what_was_encoded() {
    assert_eq!(decode("{\"id\":1,\"user_id\":2}"), Some(Session { id: 1, user_id: 2 }));
    assert_eq!(decode("{\"id\":-17,\"user_id\":400}"), Some(Session { id: -17, user_id: 400 }));
    assert_eq!(
        decode("{\"id\":2147483647,\"user_id\":-2147483648}"),
        Some(Session { id: i32::MAX, user_id: i32::MIN })
    );
}

#[test]
fn decoding_undoes_encoding() {
    let values = [i32::MIN, -1_000_000, -10, -1, 0, 1, 9, 10, 99, 750, 123_456_789, i32::MAX];
    for id in values {
        for user_id in values {
            let session = Session { id, user_id };
            assert_eq!(decode(&encode(&session)), Some(session));
        }
    }
}

#[test]
fn encoding_undoes_decoding() {
    let text = "{\"id\":31,\"user_id\":4}";
    let session = decode(text).unwrap();
    assert_eq!(encode(&session), text);
}

#[test]
fn rejects_texts_that_are_no_record() {
    assert_eq!(decode(""), None);
    assert_eq!(decode("{}"), None);
    assert_eq!(decode("null"), None);
    assert_eq!(decode("garbage"), None);
    assert_eq!(decode("{\"id\":1}"), None);
    assert_eq!(decode("{\"user_id\":2}"), None);
    assert_eq!(decode("[1,2]"), None);
    assert_eq!(decode("{\"id\":1,\"user_id\":2"), None);
    assert_eq!(decode("\"id\":1,\"user_id\":2}"), None);
}

#[test]
fn rejects_records_that_were_not_written_by_encode() {
    assert_eq!(decode("{\"id\": 1,\"user_id\":2}"), None);
    assert_eq!(decode(" {\"id\":1,\"user_id\":2}"), None);
    assert_eq!(decode("{\"id\":1,\"user_id\":2} "), None);
    assert_eq!(decode("{\"user_id\":2,\"id\":1}"), None);
    assert_eq!(decode("{\"id\":01,\"user_id\":2}"), None);
    assert_eq!(decode("{\"id\":+1,\"user_id\":2}"), None);
    assert_eq!(decode("{\"id\":-0,\"user_id\":2}"), None);
    assert_eq!(decode("{\"id\":1,\"user_id\":2,\"extra\":3}"), None);
    assert_eq!(decode("{\"id\":1,\"user_id\":2}}"), None);
    assert_eq!(decode("{\"id\":1,,\"user_id\":2}"), None);
    assert_eq!(decode("{\"id\":1.0,\"user_id\":2}"), None);
    assert_eq!(decode("{\"id\":\"1\",\"user_id\":2}"), None);
}

#[test]
fn rejects_fields_that_do_not_fit() {
    assert_eq!(decode("{\"id\":2147483648,\"user_id\":2}"), None);
    assert_eq!(decode("{\"id\":1,\"user_id\":-2147483649}"), None);
}

#[test]
fn rejects_text_outside_ascii() {
    assert_eq!(decode("{\"id\":1,\"user_id\":2}\u{00e9}"), None);
    assert_eq!(decode("{\"id\":\u{0661},\"user_id\":2}"), None);
}

#[test]
fn encoded_text_is_the_json_of_the_two_fields() {
    for (id, user_id) in [(1, 2), (-4, 77), (i32::MAX, i32::MIN), (0, 0)] {
        let text = encode(&Session { id, user_id });
        assert_eq!(text, serde_json::to_string(&json_object(id, user_id)).unwrap());
    }
}

#[test]
fn encoded_text_parses_as_json_with_both_fields() {
    let text = encode(&Session { id: 12, user_id: -3 });
    let value: serde_json::Value = serde_json::from_str(&text).unwrap();
    assert_eq!(value.get("id").and_then(|v| v.as_i64()), Some(12));
    assert_eq!(value.get("user_id").and_then(|v| v.as_i64()), Some(-3));
    assert_eq!(value.as_object().map(|o| o.len()), Some(2));
}

#[test]
fn decodes_the_compact_json_of_the_two_fields() {
    let text = serde_json::to_string(&json_object(8, 15)).unwrap();
    assert_eq!(decode(&text), Some(Session { id: 8, user_id: 15 }));
}
