use media_sync::codec::{decode_message, encode_message};
use media_sync::protocol::Message;

fn msg(ty: &str, position: Option<i64>, timestamp: i64, client_id: Option<&str>) -> Message {
    Message {
        msg_type: ty.to_string(),
        position,
        timestamp,
        client_id: client_id.map(|c| c.to_string()),
    }
}

#[test]
fn encode_minimal() {
    let m = msg("toggle", None, 123, None);
    assert_eq!(encode_message(&m), "{\"type\":\"toggle\",\"timestamp\":123}");
}

#[test]
fn encode_all_fields() {
    let m = msg("play", Some(-5), 1700000000000, Some("abc"));
    assert_eq!(
        encode_message(&m),
        "{\"type\":\"play\",\"position\":-5,\"timestamp\":1700000000000,\"clientId\":\"abc\"}"
    );
}

#[test]
fn encode_escapes() {
    let m = msg("a\"b\\c\nd\u{1}", None, 0, None);
    assert_eq!(
        encode_message(&m),
        "{\"type\":\"a\\\"b\\\\c\\nd\\u0001\",\"timestamp\":0}"
    );
}

#[test]
fn encode_extreme_timestamps() {
    assert_eq!(
        encode_message(&msg("t", None, i64::MAX, None)),
        "{\"type\":\"t\",\"timestamp\":9223372036854775807}"
    );
    assert_eq!(
        encode_message(&msg("t", None, i64::MIN, None)),
        "{\"type\":\"t\",\"timestamp\":-9223372036854775808}"
    );
}

#[test]
fn decode_minimal() {
    let m = decode_message("{\"type\":\"pong\",\"timestamp\":42}").unwrap();
    assert_eq!(m, msg("pong", None, 42, None));
}

#[test]
fn decode_any_member_order_and_whitespace() {
    let m = decode_message(
        " { \"timestamp\" : 7 ,\n\t\"clientId\" : \"me\" , \"type\" : \"pause\" , \"position\" : 9 } ",
    )
    .unwrap();
    assert_eq!(m, msg("pause", Some(9), 7, Some("me")));
}

#[test]
fn decode_null_optionals() {
    let m = decode_message("{\"type\":\"t\",\"position\":null,\"timestamp\":1,\"clientId\":null}")
        .unwrap();
    assert_eq!(m, msg("t", None, 1, None));
}

#[test]
fn decode_string_escapes() {
    let m = decode_message("{\"type\":\"a\\\"\\\\\\/\\b\\f\\n\\r\\t\",\"timestamp\":0}").unwrap();
    assert_eq!(m.msg_type, "a\"\\/\u{8}\u{c}\n\r\t");
}

#[test]
fn decode_unicode_escapes() {
    let m = decode_message("{\"type\":\"\\u0041\\u00e9\",\"timestamp\":0}").unwrap();
    assert_eq!(m.msg_type, "Aé");
    let m = decode_message("{\"type\":\"\\ud83d\\ude00\",\"timestamp\":0}").unwrap();
    assert_eq!(m.msg_type, "\u{1F600}");
}

#[test]
fn decode_lone_surrogate_is_malformed() {
    assert!(decode_message("{\"type\":\"\\ud83d\",\"timestamp\":0}").is_none());
}

#[test]
fn decode_int_bounds() {
    let m = decode_message("{\"type\":\"t\",\"timestamp\":9223372036854775807}").unwrap();
    assert_eq!(m.timestamp, i64::MAX);
    let m = decode_message("{\"type\":\"t\",\"timestamp\":-9223372036854775808}").unwrap();
    assert_eq!(m.timestamp, i64::MIN);
    assert!(decode_message("{\"type\":\"t\",\"timestamp\":9223372036854775808}").is_none());
    assert!(decode_message("{\"type\":\"t\",\"timestamp\":-9223372036854775809}").is_none());
}

#[test]
fn decode_malformed_payloads() {
    for text in [
        "",
        "   ",
        "not json",
        "[1,2]",
        "{",
        "{}",
        "{\"type\":\"t\"}",
        "{\"timestamp\":1}",
        "{\"type\":\"t\",\"timestamp\":1} trailing",
        "{\"type\":\"t\",\"timestamp\":1,}",
        "{\"type\":\"t\",\"type\":\"u\",\"timestamp\":1}",
        "{\"type\":\"t\",\"timestamp\":1,\"extra\":2}",
        "{\"type\":\"t\",\"timestamp\":1.5}",
        "{\"type\":\"t\",\"timestamp\":1e3}",
        "{\"type\":\"t\",\"timestamp\":007}",
        "{\"type\":\"t\",\"timestamp\":null}",
        "{\"type\":null,\"timestamp\":1}",
        "{\"type\":12,\"timestamp\":1}",
        "{\"type\":\"t\",\"timestamp\":\"1\"}",
        "{\"type\":\"t\",\"timestamp\":-}",
        "{\"type\":\"t\",\"timestamp\":1,\"position\":true}",
        "{\"type\":\"unterminated,\"timestamp\":1}",
        "{\"type\":\"bad\\q\",\"timestamp\":1}",
    ] {
        assert!(decode_message(text).is_none(), "should be malformed: {}", text);
    }
}

#[test]
fn decode_negative_zero_and_zero() {
    let m = decode_message("{\"type\":\"t\",\"timestamp\":-0}").unwrap();
    assert_eq!(m.timestamp, 0);
    let m = decode_message("{\"type\":\"t\",\"timestamp\":0}").unwrap();
    assert_eq!(m.timestamp, 0);
}

#[test]
fn round_trips() {
    let cases = vec![
        msg("toggle", None, 0, None),
        msg("ping", Some(42), 1700000000000, Some("client-1")),
        msg("weird \"tag\"\\with\nescapes\u{1}\u{1f}", Some(-1), -77, Some("id\t\u{1F600}")),
        msg("", None, i64::MIN, Some("")),
    ];
    for m in cases {
        let text = encode_message(&m);
        let back = decode_message(&text).expect(&text);
        assert_eq!(back, m);
    }
}
