use yewchat::codec::{decode_envelope, decode_message_data, encode_envelope, DecodeError, Envelope,
    MsgTypes};
use yewchat::outbound::{register, submit};

#[test]
fn register_payload_exact() {
    let payload = register("alice");
    assert_eq!(payload, "{\"messageType\":\"register\",\"data\":\"alice\"}");
}

#[test]
fn submit_empty_body_exact() {
    let payload = submit("");
    assert_eq!(payload, "{\"messageType\":\"message\",\"data\":\"\"}");
}

#[test]
fn submit_body_verbatim_no_trimming() {
    let payload = submit("  hi there  ");
    assert_eq!(payload, "{\"messageType\":\"message\",\"data\":\"  hi there  \"}");
}

#[test]
fn encode_users_envelope() {
    let env = Envelope {
        message_type: MsgTypes::Users,
        data_array: Some(vec!["name1".to_string(), "name2".to_string()]),
        data: None,
    };
    assert_eq!(
        encode_envelope(&env),
        "{\"messageType\":\"users\",\"dataArray\":[\"name1\",\"name2\"]}"
    );
}

#[test]
fn encode_escapes_quotes_backslashes_and_controls() {
    let payload = submit("a\"b\\c\nd\u{1}e");
    assert_eq!(
        payload,
        "{\"messageType\":\"message\",\"data\":\"a\\\"b\\\\c\\nd\\u0001e\"}"
    );
}

#[test]
fn decode_users_envelope() {
    let r = decode_envelope("{\"messageType\":\"users\",\"dataArray\":[\"name1\",\"name2\"]}");
    let env = r.unwrap().unwrap();
    assert!(matches!(env.message_type, MsgTypes::Users));
    assert_eq!(env.data_array, Some(vec!["name1".to_string(), "name2".to_string()]));
    assert_eq!(env.data, None);
}

#[test]
fn decode_tolerates_whitespace_and_key_order() {
    let r = decode_envelope(" { \"dataArray\" : [ \"a\" ] ,\n\t\"messageType\" : \"users\" } ");
    let env = r.unwrap().unwrap();
    assert!(matches!(env.message_type, MsgTypes::Users));
    assert_eq!(env.data_array, Some(vec!["a".to_string()]));
}

#[test]
fn decode_null_data_array_counts_as_absent() {
    let r = decode_envelope("{\"messageType\":\"register\",\"dataArray\":null,\"data\":\"bob\"}");
    let env = r.unwrap().unwrap();
    assert!(matches!(env.message_type, MsgTypes::Register));
    assert_eq!(env.data_array, None);
    assert_eq!(env.data, Some("bob".to_string()));
}

#[test]
fn decode_duplicate_keys_last_wins() {
    let r = decode_envelope("{\"messageType\":\"register\",\"messageType\":\"users\"}");
    let env = r.unwrap().unwrap();
    assert!(matches!(env.message_type, MsgTypes::Users));
}

#[test]
fn decode_unrecognized_kind_is_ignored_not_an_error() {
    let r = decode_envelope("{\"messageType\":\"ping\",\"data\":\"x\"}");
    assert_eq!(r, Ok(None));
}

#[test]
fn decode_rejects_malformed_text() {
    assert_eq!(decode_envelope("not structured at all"), Err(DecodeError::MalformedEnvelope));
    assert_eq!(decode_envelope("{\"messageType\":\"us"), Err(DecodeError::MalformedEnvelope));
    assert_eq!(decode_envelope(""), Err(DecodeError::MalformedEnvelope));
    assert_eq!(
        decode_envelope("{\"messageType\":\"users\"} trailing"),
        Err(DecodeError::MalformedEnvelope)
    );
}

#[test]
fn decode_rejects_missing_or_non_string_kind() {
    assert_eq!(decode_envelope("{}"), Err(DecodeError::MalformedEnvelope));
    assert_eq!(decode_envelope("{\"data\":\"x\"}"), Err(DecodeError::MalformedEnvelope));
    assert_eq!(
        decode_envelope("{\"messageType\":null}"),
        Err(DecodeError::MalformedEnvelope)
    );
}

#[test]
fn decode_rejects_mistyped_fields() {
    assert_eq!(
        decode_envelope("{\"messageType\":\"users\",\"dataArray\":\"oops\"}"),
        Err(DecodeError::MalformedEnvelope)
    );
    assert_eq!(
        decode_envelope("{\"messageType\":\"register\",\"data\":[\"oops\"]}"),
        Err(DecodeError::MalformedEnvelope)
    );
}

#[test]
fn decode_string_escapes() {
    let r = decode_envelope(
        "{\"messageType\":\"register\",\"data\":\"a\\\"b\\\\c\\nd\\u0041e\\u0009f\"}",
    );
    let env = r.unwrap().unwrap();
    assert_eq!(env.data, Some("a\"b\\c\ndAe\tf".to_string()));
}

#[test]
fn decode_rejects_unsupported_escapes() {
    assert_eq!(
        decode_envelope("{\"messageType\":\"register\",\"data\":\"a\\u00e9\"}"),
        Err(DecodeError::MalformedEnvelope)
    );
    assert_eq!(
        decode_envelope("{\"messageType\":\"register\",\"data\":\"a\\x\"}"),
        Err(DecodeError::MalformedEnvelope)
    );
}

#[test]
fn decode_message_data_nested_payload() {
    let md = decode_message_data("{\"from\":\"alice\",\"message\":\"hi\"}").unwrap();
    assert_eq!(md.from, "alice");
    assert_eq!(md.message, "hi");
}

#[test]
fn decode_message_data_requires_both_fields() {
    assert_eq!(
        decode_message_data("{\"from\":\"alice\"}"),
        Err(DecodeError::MalformedMessagePayload)
    );
    assert_eq!(
        decode_message_data("{\"message\":\"hi\"}"),
        Err(DecodeError::MalformedMessagePayload)
    );
    assert_eq!(
        decode_message_data("{\"from\":null,\"message\":\"hi\"}"),
        Err(DecodeError::MalformedMessagePayload)
    );
    assert_eq!(decode_message_data("garbage"), Err(DecodeError::MalformedMessagePayload));
}

#[test]
fn decode_round_trips_encode() {
    let env = Envelope {
        message_type: MsgTypes::Message,
        data_array: None,
        data: Some("{\"from\":\"a b\",\"message\":\"x\\ny\"}".to_string()),
    };
    let text = encode_envelope(&env);
    let back = decode_envelope(&text).unwrap().unwrap();
    assert_eq!(back, env);
}

#[test]
fn encode_agrees_with_oracle_parser() {
    let payload = register("al\"ice\\x\n");
    let v: serde_json::Value = serde_json::from_str(&payload).unwrap();
    assert_eq!(v["messageType"], "register");
    assert_eq!(v["data"], "al\"ice\\x\n");

    let env = Envelope {
        message_type: MsgTypes::Users,
        data_array: Some(vec!["a b".to_string(), "c".to_string()]),
        data: None,
    };
    let v2: serde_json::Value = serde_json::from_str(&encode_envelope(&env)).unwrap();
    assert_eq!(v2["dataArray"][0], "a b");
    assert_eq!(v2["dataArray"][1], "c");
}

#[test]
fn decode_agrees_with_oracle_producer() {
    let mut m = serde_json::Map::new();
    m.insert(
        "messageType".to_string(),
        serde_json::Value::String("users".to_string()),
    );
    m.insert(
        "dataArray".to_string(),
        serde_json::Value::Array(vec![
            serde_json::Value::String("alice".to_string()),
            serde_json::Value::String("bo b".to_string()),
        ]),
    );
    let text = serde_json::Value::Object(m).to_string();
    let env = decode_envelope(&text).unwrap().unwrap();
    assert!(matches!(env.message_type, MsgTypes::Users));
    assert_eq!(env.data_array, Some(vec!["alice".to_string(), "bo b".to_string()]));
}
