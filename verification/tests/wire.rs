//! Tests for the wire message codec.

use peer_chat::pubsub::Message;

#[test]
fn serialize_is_canonical_json() {
    let message = Message::from_parts(
        0x123e4567e89b12d3a456426614174000u128,
        "pA".to_string(),
        "hi".to_string(),
        None,
        "chat001".to_string(),
    );
    assert_eq!(
        message.serialize(),
        "{\"id\":\"123e4567-e89b-12d3-a456-426614174000\",\"source\":\"pA\",\"msg\":\"hi\",\"reply_id\":null,\"topic\":\"chat001\"}"
    );
}

#[test]
fn wire_roundtrip_plain() {
    let message = Message::from_parts(
        0x123e4567e89b12d3a456426614174000u128,
        "pA".to_string(),
        "hello there".to_string(),
        None,
        "chat001".to_string(),
    );
    let text = message.serialize();
    let back = Message::deserialize(text.as_str()).expect("canonical text parses");
    assert_eq!(back, message);
}

#[test]
fn wire_roundtrip_with_reply_and_escapes() {
    let message = Message::from_parts(
        7,
        "peer \"quoted\"".to_string(),
        "line\nbreak\ttab \\ slash \u{1} control".to_string(),
        Some("0e8ab344-1111-2222-3333-444455556666".to_string()),
        "room/one".to_string(),
    );
    let text = message.serialize();
    let back = Message::deserialize(text.as_str()).expect("escaped text parses");
    assert_eq!(back, message);
}

#[test]
fn wire_roundtrip_fresh_message() {
    let message = Message::new("pA".to_string(), "ssup".to_string(), "chat001".to_string());
    let text = message.serialize();
    let back = Message::deserialize(text.as_str()).expect("fresh message parses");
    assert_eq!(back, message);
}

#[test]
fn unknown_fields_are_ignored() {
    let expected = Message::from_parts(
        0x123e4567e89b12d3a456426614174000u128,
        "pA".to_string(),
        "hi".to_string(),
        None,
        "chat001".to_string(),
    );
    let text = "{\"id\":\"123e4567-e89b-12d3-a456-426614174000\",\"extra\":{\"a\":[1,2,\"x\"],\"b\":null,\"c\":true},\"source\":\"pA\",\"msg\":\"hi\",\"n\":-12.5e3,\"reply_id\":null,\"flag\":false,\"topic\":\"chat001\"}";
    let back = Message::deserialize(text).expect("extra fields are skipped");
    assert_eq!(back, expected);
}

#[test]
fn missing_reply_means_no_reply() {
    let expected = Message::from_parts(
        1,
        "a".to_string(),
        "b".to_string(),
        None,
        "c".to_string(),
    );
    let text = "{\"id\":\"00000000-0000-0000-0000-000000000001\",\"source\":\"a\",\"msg\":\"b\",\"topic\":\"c\"}";
    let back = Message::deserialize(text).expect("reply field may be absent");
    assert_eq!(back, expected);
}

#[test]
fn malformed_texts_are_rejected() {
    assert!(Message::deserialize("").is_none());
    assert!(Message::deserialize("[]").is_none());
    assert!(Message::deserialize("{}").is_none());
    assert!(Message::deserialize("{\"id\":\"123\"}").is_none());
    assert!(Message::deserialize(
        "{\"source\":\"a\",\"msg\":\"b\",\"reply_id\":null,\"topic\":\"c\"}"
    )
    .is_none());
    let valid = "{\"id\":\"123e4567-e89b-12d3-a456-426614174000\",\"source\":\"pA\",\"msg\":\"hi\",\"reply_id\":null,\"topic\":\"chat001\"}";
    let mut truncated = valid.to_string();
    truncated.pop();
    assert!(Message::deserialize(truncated.as_str()).is_none());
    let mut garbled = valid.to_string();
    garbled.push('x');
    assert!(Message::deserialize(garbled.as_str()).is_none());
}

#[test]
fn whitespace_is_insignificant() {
    let expected = Message::from_parts(
        1,
        "a".to_string(),
        "b".to_string(),
        None,
        "c".to_string(),
    );
    let text = " \t{ \"id\" :\n\"00000000-0000-0000-0000-000000000001\" ,\r\n \"extra\" : [ 1 , { } , \"x\" ] , \"source\": \"a\" , \"msg\" : \"b\", \"reply_id\" : null , \"topic\" : \"c\" }\n ";
    let back = Message::deserialize(text).expect("whitespace is skipped");
    assert_eq!(back, expected);
}

#[test]
fn unicode_escapes_parse() {
    let text = "{\"id\":\"00000000-0000-0000-0000-000000000001\",\"source\":\"\\u0041B\",\"msg\":\"\\u00e9 and \\uD83D\\uDE00\",\"reply_id\":null,\"topic\":\"c\"}";
    let back = Message::deserialize(text).expect("unicode escapes parse");
    assert_eq!(back.source().as_str(), "AB");
    assert_eq!(back.body().as_str(), "\u{e9} and \u{1F600}");
    let lone_high = "{\"id\":\"00000000-0000-0000-0000-000000000001\",\"source\":\"\\uD83D\",\"msg\":\"b\",\"reply_id\":null,\"topic\":\"c\"}";
    assert!(Message::deserialize(lone_high).is_none());
    let lone_low = "{\"id\":\"00000000-0000-0000-0000-000000000001\",\"source\":\"\\uDE00\",\"msg\":\"b\",\"reply_id\":null,\"topic\":\"c\"}";
    assert!(Message::deserialize(lone_low).is_none());
}

#[test]
fn serialized_text_is_json_to_other_readers() {
    let message = Message::from_parts(
        0x00000000000000000000000000000009u128,
        "peer \"q\"".to_string(),
        "body with \n and \t and \u{3} bytes".to_string(),
        Some("reply \\ here".to_string()),
        "topic".to_string(),
    );
    let text = message.serialize();
    let value: serde_json::Value = serde_json::from_str(text.as_str()).expect("valid JSON");
    assert_eq!(
        value["id"],
        serde_json::Value::String("00000000-0000-0000-0000-000000000009".to_string())
    );
    assert_eq!(
        value["source"],
        serde_json::Value::String("peer \"q\"".to_string())
    );
    assert_eq!(
        value["msg"],
        serde_json::Value::String("body with \n and \t and \u{3} bytes".to_string())
    );
    assert_eq!(
        value["reply_id"],
        serde_json::Value::String("reply \\ here".to_string())
    );
    assert_eq!(
        value["topic"],
        serde_json::Value::String("topic".to_string())
    );
}

#[test]
fn uuid_text_is_hyphenated_lower_case() {
    let message = Message::from_parts(
        0xffffffffffffffffffffffffffffffffu128,
        "a".to_string(),
        "b".to_string(),
        None,
        "c".to_string(),
    );
    assert_eq!(
        message.id_string(),
        "ffffffff-ffff-ffff-ffff-ffffffffffff".to_string()
    );
    let fresh = Message::new("a".to_string(), "b".to_string(), "c".to_string());
    assert_ne!(
        fresh.id_string(),
        "00000000-0000-0000-0000-000000000000".to_string()
    );
}

#[test]
fn duplicate_fields_take_the_last_value() {
    let text = "{\"id\":\"00000000-0000-0000-0000-000000000001\",\"msg\":\"first\",\"source\":\"a\",\"msg\":\"second\",\"reply_id\":null,\"topic\":\"c\"}";
    let back = Message::deserialize(text).expect("duplicate member parses");
    assert_eq!(back.body().as_str(), "second");
}

#[test]
fn reader_accepts_all_short_escapes() {
    let text = "{\"id\":\"00000000-0000-0000-0000-000000000001\",\"source\":\"a\\/b\",\"msg\":\"x\\b\\f\\u0009y\",\"reply_id\":null,\"topic\":\"c\"}";
    let back = Message::deserialize(text).expect("short escapes parse");
    assert_eq!(back.source().as_str(), "a/b");
    assert_eq!(back.body().as_str(), "x\u{8}\u{c}\ty");
}
