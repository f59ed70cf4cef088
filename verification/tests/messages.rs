use hdn::agent::{read_failure, try_read_request, try_read_update, ReadError};
use hdn::json::Category;
use hdn::messages::{
    data_frame, decode_request, decode_update, encode_greeting, encode_response, encode_update,
    greeting_frame, update_frame, Greeting, Load, PeerUpdate, Request, Response, Store,
};
use serde_json::Value;

fn value(text: &str) -> Value {
    serde_json::from_str(text).unwrap()
}

fn store(key: &str, hash: &str) -> Request {
    Request::Store(Store { key: key.to_string(), hash: hash.to_string() })
}

fn load(key: &str) -> Request {
    Request::Load(Load { key: key.to_string() })
}

/// A stream that cannot be read.
struct Broken;

impl std::io::Read for Broken {
    fn read(&mut self, _buffer: &mut [u8]) -> std::io::Result<usize> {
        Err(std::io::Error::new(std::io::ErrorKind::ConnectionReset, "reset"))
    }
}

#[test]
fn decode_load_request() {
    let request = decode_request(&value(r#"{"request_type":"load","key":"foo"}"#));
    assert_eq!(request, Some(load("foo")));
}

#[test]
fn decode_store_request() {
    let request = decode_request(&value(r#"{"request_type":"store","key":"foo","hash":"oof"}"#));
    assert_eq!(request, Some(store("foo", "oof")));
}

#[test]
fn decode_request_in_any_member_order() {
    let request = decode_request(&value(r#"{"hash":"oof","key":"foo","request_type":"store"}"#));
    assert_eq!(request, Some(store("foo", "oof")));
}

#[test]
fn decode_request_ignores_other_members() {
    let request = decode_request(&value(r#"{"request_type":"load","key":"foo","hash":"oof"}"#));
    assert_eq!(request, Some(load("foo")));
    let request =
        decode_request(&value(r#"{"request_type":"load","key":"foo","colour":[1,2,3]}"#));
    assert_eq!(request, Some(load("foo")));
}

#[test]
fn decode_request_keeps_the_text_of_a_member_not_its_name() {
    let request = decode_request(&value(r#"{"request_type":"load","key":"request_type"}"#));
    assert_eq!(request, Some(load("request_type")));
    let request = decode_request(&value(r#"{"request_type":"store","key":"hash","hash":"key"}"#));
    assert_eq!(request, Some(store("hash", "key")));
}

#[test]
fn decode_request_unescapes_strings() {
    let request = decode_request(&value(r#"{"request_type":"load","key":"\"k\\ey\"\n"}"#));
    assert_eq!(request, Some(load("\"k\\ey\"\n")));
}

#[test]
fn decode_request_with_unknown_type() {
    assert_eq!(decode_request(&value(r#"{"request_type":"say","key":"meow"}"#)), None);
    assert_eq!(decode_request(&value(r#"{"request_type":"Load","key":"meow"}"#)), None);
    assert_eq!(decode_request(&value(r#"{"request_type":"","key":"meow"}"#)), None);
    assert_eq!(decode_request(&value(r#"{"request_type":7,"key":"meow"}"#)), None);
}

#[test]
fn decode_request_without_type() {
    assert_eq!(decode_request(&value(r#"{"key":"foo","hash":"oof"}"#)), None);
    assert_eq!(decode_request(&value("{}")), None);
}

#[test]
fn decode_request_with_missing_members() {
    assert_eq!(decode_request(&value(r#"{"request_type":"load"}"#)), None);
    assert_eq!(decode_request(&value(r#"{"request_type":"store","key":"foo"}"#)), None);
    assert_eq!(decode_request(&value(r#"{"request_type":"store","hash":"oof"}"#)), None);
}

#[test]
fn decode_request_with_members_that_are_no_strings() {
    assert_eq!(decode_request(&value(r#"{"request_type":"load","key":5}"#)), None);
    assert_eq!(decode_request(&value(r#"{"request_type":"load","key":null}"#)), None);
    assert_eq!(decode_request(&value(r#"{"request_type":"load","key":["foo"]}"#)), None);
    assert_eq!(
        decode_request(&value(r#"{"request_type":"store","key":"foo","hash":{"a":"b"}}"#)),
        None
    );
    assert_eq!(
        decode_request(&value(r#"{"request_type":"store","key":"foo","hash":true}"#)),
        None
    );
}

#[test]
fn decode_request_from_what_is_no_object() {
    assert_eq!(decode_request(&value("null")), None);
    assert_eq!(decode_request(&value("17")), None);
    assert_eq!(decode_request(&value(r#""load""#)), None);
    assert_eq!(decode_request(&value(r#"["load","foo"]"#)), None);
    assert_eq!(decode_request(&value(r#"[{"request_type":"load","key":"foo"}]"#)), None);
}

#[test]
fn decode_peer_update() {
    let update = decode_update(&value(r#"{"key":"foo","hash":"oof","time":1700000000123}"#));
    assert_eq!(
        update,
        Some(PeerUpdate { key: "foo".to_string(), hash: "oof".to_string(), time: 1700000000123 })
    );
}

#[test]
fn decode_peer_update_at_the_ends_of_the_range() {
    let update = decode_update(&value(r#"{"key":"k","hash":"h","time":9223372036854775807}"#));
    assert_eq!(
        update,
        Some(PeerUpdate { key: "k".to_string(), hash: "h".to_string(), time: i64::MAX })
    );
    let update = decode_update(&value(r#"{"key":"k","hash":"h","time":-9223372036854775808}"#));
    assert_eq!(
        update,
        Some(PeerUpdate { key: "k".to_string(), hash: "h".to_string(), time: i64::MIN })
    );
    let update = decode_update(&value(r#"{"key":"k","hash":"h","time":0}"#));
    assert_eq!(update, Some(PeerUpdate { key: "k".to_string(), hash: "h".to_string(), time: 0 }));
}

#[test]
fn decode_peer_update_with_a_time_that_is_no_integer() {
    assert_eq!(decode_update(&value(r#"{"key":"k","hash":"h","time":9223372036854775808}"#)), None);
    assert_eq!(decode_update(&value(r#"{"key":"k","hash":"h","time":1.5}"#)), None);
    assert_eq!(decode_update(&value(r#"{"key":"k","hash":"h","time":1e3}"#)), None);
    assert_eq!(decode_update(&value(r#"{"key":"k","hash":"h","time":"12"}"#)), None);
    assert_eq!(decode_update(&value(r#"{"key":"k","hash":"h","time":null}"#)), None);
}

#[test]
fn decode_peer_update_with_missing_members() {
    assert_eq!(decode_update(&value(r#"{"key":"k","hash":"h"}"#)), None);
    assert_eq!(decode_update(&value(r#"{"key":"k","time":1}"#)), None);
    assert_eq!(decode_update(&value(r#"{"hash":"h","time":1}"#)), None);
    assert_eq!(decode_update(&value(r#"{"key":1,"hash":"h","time":1}"#)), None);
    assert_eq!(decode_update(&value("[]")), None);
}

#[test]
fn encode_each_response() {
    assert_eq!(encode_response(&Response::Success), r#"{"response_status":"success"}"#);
    assert_eq!(encode_response(&Response::KeyNotFound), r#"{"response_status":"key not found"}"#);
    assert_eq!(
        encode_response(&Response::InvalidRequest),
        r#"{"response_status":"invalid request"}"#
    );
    assert_eq!(
        encode_response(&Response::Data {
            requested_key: "foo".to_string(),
            requested_hash: "oof".to_string()
        }),
        r#"{"response_status":"success","requested_key":"foo","requested_hash":"oof"}"#
    );
}

#[test]
fn encode_response_quotes_its_strings() {
    let text = encode_response(&Response::Data {
        requested_key: "\"key\"".to_string(),
        requested_hash: "a\\b\nc\u{1}\u{e9}".to_string(),
    });
    assert_eq!(
        text,
        "{\"response_status\":\"success\",\"requested_key\":\"\\\"key\\\"\",\
         \"requested_hash\":\"a\\\\b\\nc\\u0001\u{e9}\"}"
    );
    let read: Value = serde_json::from_str(&text).unwrap();
    assert_eq!(read["requested_key"], Value::from("\"key\""));
    assert_eq!(read["requested_hash"], Value::from("a\\b\nc\u{1}\u{e9}"));
}

#[test]
fn encode_the_greeting() {
    assert_eq!(
        encode_greeting(&Greeting { student_name: "Elina Safarova" }),
        r#"{"student_name":"Elina Safarova"}"#
    );
    assert_eq!(encode_greeting(&Greeting { student_name: "" }), r#"{"student_name":""}"#);
}

#[test]
fn encode_a_peer_update() {
    let update =
        PeerUpdate { key: "foo".to_string(), hash: "oof".to_string(), time: 1700000000123 };
    assert_eq!(encode_update(&update), r#"{"key":"foo","hash":"oof","time":1700000000123}"#);
    let update = PeerUpdate { key: "k".to_string(), hash: "h".to_string(), time: -5 };
    assert_eq!(encode_update(&update), r#"{"key":"k","hash":"h","time":-5}"#);
    let update = PeerUpdate { key: "k".to_string(), hash: "h".to_string(), time: 0 };
    assert_eq!(encode_update(&update), r#"{"key":"k","hash":"h","time":0}"#);
}

#[test]
fn a_peer_update_survives_the_wire() {
    for time in [i64::MIN, -1, 0, 1, 1700000000123, i64::MAX] {
        let update = PeerUpdate { key: "{\"k\"}".to_string(), hash: "\u{0}h".to_string(), time };
        let read = decode_update(&value(&encode_update(&update)));
        assert_eq!(read, Some(update));
    }
}

#[test]
fn read_failure_of_each_category() {
    assert_eq!(read_failure(Category::Io), ReadError::Disconnected);
    assert_eq!(read_failure(Category::Eof), ReadError::Disconnected);
    assert_eq!(read_failure(Category::Syntax), ReadError::Malformed);
    assert_eq!(read_failure(Category::Data), ReadError::Malformed);
}

#[test]
fn try_read_request_from_a_value() {
    let read = try_read_request(Ok(value(r#"{"request_type":"load","key":"foo"}"#)));
    assert_eq!(read, Ok(load("foo")));
    let read = try_read_request(Ok(value(r#"{"request_type":"say","key":"meow"}"#)));
    assert_eq!(read, Err(ReadError::Malformed));
}

#[test]
fn try_read_request_at_the_end_of_the_stream() {
    let read = try_read_request(serde_json::from_str::<Value>(""));
    assert_eq!(read, Err(ReadError::Disconnected));
    let read = try_read_request(serde_json::from_str::<Value>(r#"{"request_type":"lo"#));
    assert_eq!(read, Err(ReadError::Disconnected));
}

#[test]
fn try_read_request_from_a_broken_stream() {
    let read = try_read_request(serde_json::from_reader::<Broken, Value>(Broken));
    assert_eq!(read, Err(ReadError::Disconnected));
}

#[test]
fn try_read_request_from_what_is_no_json() {
    let read = try_read_request(serde_json::from_str::<Value>("}"));
    assert_eq!(read, Err(ReadError::Malformed));
    let read = try_read_request(serde_json::from_str::<Value>(r#"{"request_type" "load"}"#));
    assert_eq!(read, Err(ReadError::Malformed));
}

#[test]
fn try_read_request_from_json_of_another_type() {
    let wrong = serde_json::from_str::<u8>("\"x\"").unwrap_err();
    assert!(wrong.is_data());
    assert_eq!(try_read_request(Err(wrong)), Err(ReadError::Malformed));
}

#[test]
fn try_read_update_from_a_value() {
    let read = try_read_update(Ok(value(r#"{"key":"foo","hash":"oof","time":12}"#)));
    assert_eq!(
        read,
        Ok(PeerUpdate { key: "foo".to_string(), hash: "oof".to_string(), time: 12 })
    );
    let read = try_read_update(Ok(value(r#"{"key":"foo","hash":"oof"}"#)));
    assert_eq!(read, Err(ReadError::Malformed));
}

#[test]
fn try_read_update_when_reading_failed() {
    assert_eq!(try_read_update(serde_json::from_str::<Value>("")), Err(ReadError::Disconnected));
    assert_eq!(try_read_update(serde_json::from_str::<Value>("]")), Err(ReadError::Malformed));
    assert_eq!(
        try_read_update(serde_json::from_reader::<Broken, Value>(Broken)),
        Err(ReadError::Disconnected)
    );
}

fn some(text: &str) -> Option<String> {
    Some(text.to_string())
}

#[test]
fn request_from_members() {
    assert_eq!(Request::from_members(some("load"), some("foo"), None), Some(load("foo")));
    assert_eq!(Request::from_members(some("load"), some("foo"), some("oof")), Some(load("foo")));
    assert_eq!(
        Request::from_members(some("store"), some("foo"), some("oof")),
        Some(store("foo", "oof"))
    );
    assert_eq!(Request::from_members(some("store"), some(""), some("")), Some(store("", "")));
}

#[test]
fn no_request_from_members() {
    assert_eq!(Request::from_members(None, some("foo"), some("oof")), None);
    assert_eq!(Request::from_members(some("load"), None, some("oof")), None);
    assert_eq!(Request::from_members(some("store"), some("foo"), None), None);
    assert_eq!(Request::from_members(some("store"), None, some("oof")), None);
    assert_eq!(Request::from_members(some("say"), some("meow"), None), None);
    assert_eq!(Request::from_members(some("loa"), some("foo"), some("oof")), None);
    assert_eq!(Request::from_members(some("stored"), some("foo"), some("oof")), None);
    assert_eq!(Request::from_members(some("LOAD"), some("foo"), some("oof")), None);
    assert_eq!(Request::from_members(None, None, None), None);
}

#[test]
fn update_from_members() {
    assert_eq!(
        PeerUpdate::from_members(some("k"), some("h"), Some(-3)),
        Some(PeerUpdate { key: "k".to_string(), hash: "h".to_string(), time: -3 })
    );
    assert_eq!(PeerUpdate::from_members(None, some("h"), Some(1)), None);
    assert_eq!(PeerUpdate::from_members(some("k"), None, Some(1)), None);
    assert_eq!(PeerUpdate::from_members(some("k"), some("h"), None), None);
}

#[test]
fn frames_around_quoted_strings() {
    assert_eq!(
        data_frame("\"foo\"", "\"oof\""),
        r#"{"response_status":"success","requested_key":"foo","requested_hash":"oof"}"#
    );
    assert_eq!(greeting_frame("\"Elina Safarova\""), r#"{"student_name":"Elina Safarova"}"#);
    assert_eq!(
        update_frame("\"foo\"", "\"oof\"", 1700000000123),
        r#"{"key":"foo","hash":"oof","time":1700000000123}"#
    );
}

#[test]
fn update_frame_writes_the_time_in_decimal() {
    let cases: [(i64, &str); 12] = [
        (0, "0"),
        (7, "7"),
        (9, "9"),
        (10, "10"),
        (99, "99"),
        (100, "100"),
        (1234567890, "1234567890"),
        (-1, "-1"),
        (-10, "-10"),
        (-1002003, "-1002003"),
        (i64::MAX, "9223372036854775807"),
        (i64::MIN, "-9223372036854775808"),
    ];
    for (time, digits) in cases {
        assert_eq!(
            update_frame("\"\"", "\"\"", time),
            format!("{{\"key\":\"\",\"hash\":\"\",\"time\":{digits}}}")
        );
        assert_eq!(serde_json::to_string(&time).unwrap(), digits);
    }
}
