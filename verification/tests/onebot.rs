use neko_router::clock::Timestamp;
use neko_router::json::Json;
use neko_router::napcat::{next_connection, plan_send, Connection, Delivery, Listen, NapCatIngress, Segment};
use neko_router::onebot::{
    accept_event, build_onebot11_group_reply, derive_message_id, extract_reply_to, extract_text,
    parse_onebot11_group_message, read_group_message, NAMESPACE_ONEBOT,
};
use neko_router::types::ReplyOut;

fn json(text: &str) -> Json {
    Json::parse(text).unwrap()
}

#[test]
fn parses_string_message() {
    let payload = json(
        r#"{"post_type": "message", "message_type": "group", "group_id": 12345, "user_id": 67890,
            "message_id": 111, "sender": {"nickname": "Alice"}, "message": "hello world",
            "time": 1700000000}"#,
    );
    let msg = parse_onebot11_group_message(&payload).unwrap();
    assert_eq!(msg.group_id, "12345");
    assert_eq!(msg.sender, "67890");
    assert_eq!(msg.nickname, "Alice");
    assert_eq!(msg.content, "hello world");
    assert_eq!(msg.timestamp, Timestamp { secs: 1700000000, nanos: 0 });
    assert_eq!(msg.raw_payload, payload);
}

#[test]
fn answer_refers_to_its_message() {
    let message = |id: &str| {
        parse_onebot11_group_message(&json(&format!(
            r#"{{"post_type": "message", "message_type": "group", "group_id": 12345,
                "user_id": 67890, "message_id": {id}, "message": "hello"}}"#
        )))
        .unwrap()
    };
    let answer = |id: &str| {
        parse_onebot11_group_message(&json(&format!(
            r#"{{"post_type": "message", "message_type": "group", "group_id": 12345,
                "user_id": 1, "message_id": 5, "message": [
                    {{"type": "text", "data": {{"text": "hi"}}}},
                    {{"type": "reply", "data": {{"id": {id}}}}},
                    {{"type": "reply", "data": {{"id": 9}}}}
                ]}}"#
        )))
        .unwrap()
    };
    for (a, b) in [("111", "111"), ("111", "\"111\""), ("\"111\"", "111"), ("\"111\"", "\"111\"")] {
        assert_eq!(answer(b).reply_to, Some(message(a).id));
    }
}

#[test]
fn parses_array_message() {
    let payload = json(
        r#"{"post_type": "message", "message_type": "group", "group_id": 12345, "user_id": 67890,
            "message_id": 222, "sender": {"nickname": "Bob"}, "message": [
                {"type": "text", "data": {"text": "hi "}},
                {"type": "text", "data": {"text": "there"}}
            ], "time": 1700000000}"#,
    );
    let msg = parse_onebot11_group_message(&payload).unwrap();
    assert_eq!(msg.content, "hi there");
}

#[test]
fn derives_stable_message_id() {
    let payload = json(
        r#"{"post_type": "message", "message_type": "group", "group_id": 12345, "user_id": 67890,
            "message_id": 111, "sender": {"nickname": "Alice"}, "message": "hello",
            "time": 1700000000}"#,
    );
    let a = parse_onebot11_group_message(&payload).unwrap();
    let b = parse_onebot11_group_message(&payload).unwrap();
    assert_eq!(a.id, b.id);

    let other_group = json(
        r#"{"post_type": "message", "message_type": "group", "group_id": 999, "user_id": 67890,
            "message_id": 111, "sender": {"nickname": "Alice"}, "message": "hello",
            "time": 1700000000}"#,
    );
    let c = parse_onebot11_group_message(&other_group).unwrap();
    assert_ne!(a.id, c.id);
}

#[test]
fn parses_string_message_id() {
    let payload = json(
        r#"{"post_type": "message", "message_type": "group", "group_id": 12345, "user_id": 67890,
            "message_id": "abc-123", "sender": {"nickname": "Alice"}, "message": "hello",
            "time": 1700000000}"#,
    );
    let a = parse_onebot11_group_message(&payload).unwrap();
    let b = parse_onebot11_group_message(&payload).unwrap();
    assert_eq!(a.id, b.id);
    assert_eq!(a.id, derive_message_id("12345", "abc-123"));
}

#[test]
fn parses_reply_segment_as_reply_to() {
    let payload = json(
        r#"{"post_type": "message", "message_type": "group", "group_id": 12345, "user_id": 67890,
            "message_id": 222, "sender": {"nickname": "Bob"}, "message": [
                {"type": "reply", "data": {"id": "111"}},
                {"type": "text", "data": {"text": "哈哈哈"}}
            ], "time": 1700000000}"#,
    );
    let msg = parse_onebot11_group_message(&payload).unwrap();
    assert_eq!(msg.content, "哈哈哈");
    assert_eq!(msg.reply_to, Some(derive_message_id("12345", "111")));
}

#[test]
fn ignores_reply_segment_when_missing_id() {
    let payload = json(
        r#"{"post_type": "message", "message_type": "group", "group_id": 12345, "user_id": 67890,
            "message_id": 222, "sender": {"nickname": "Bob"}, "message": [
                {"type": "reply", "data": {}},
                {"type": "text", "data": {"text": "hi"}}
            ], "time": 1700000000}"#,
    );
    let msg = parse_onebot11_group_message(&payload).unwrap();
    assert_eq!(msg.content, "hi");
    assert!(msg.reply_to.is_none());
}

#[test]
fn ids_are_derived_from_group_and_platform_id() {
    let namespace = uuid::Uuid::from_u128(NAMESPACE_ONEBOT);
    assert_eq!(namespace, uuid::Uuid::NAMESPACE_DNS);
    let want = uuid::Uuid::new_v5(&namespace, "12345:111".as_bytes()).as_u128();
    assert_eq!(derive_message_id("12345", "111"), want);
    assert_ne!(derive_message_id("12345", "112"), want);
}

#[test]
fn rejects_what_is_no_group_message() {
    let good = r#"{"post_type": "message", "message_type": "group", "group_id": 1, "user_id": 2, "message_id": 3, "message": "m"}"#;
    assert!(parse_onebot11_group_message(&json(good)).is_some());
    for (from, to) in [
        ("\"post_type\": \"message\"", "\"post_type\": \"notice\""),
        ("\"message_type\": \"group\"", "\"message_type\": \"private\""),
        ("\"group_id\": 1", "\"group_id\": \"1\""),
        ("\"user_id\": 2", "\"user_id\": 2.5"),
        ("\"message_id\": 3", "\"message_id\": null"),
        ("\"message\": \"m\"", "\"message\": []"),
        ("\"message\": \"m\"", "\"message\": 5"),
        ("\"message\": \"m\"", "\"message\": \"m\", \"time\": 8210266876800"),
        ("\"message\": \"m\"", "\"message\": \"m\", \"time\": 9223372036854775807"),
    ] {
        let bad = good.replace(from, to);
        assert_ne!(bad, good);
        assert!(parse_onebot11_group_message(&json(&bad)).is_none(), "{bad}");
    }
    assert!(parse_onebot11_group_message(&Json::Null).is_none());
}

#[test]
fn missing_time_means_now() {
    let payload = json(
        r#"{"post_type": "message", "message_type": "group", "group_id": 1, "user_id": 2, "message_id": 3, "message": "m"}"#,
    );
    let now = Timestamp { secs: 77, nanos: 123_456_789 };
    let msg = read_group_message(&payload, now, 9).unwrap();
    assert_eq!(msg.timestamp, Timestamp { secs: 77, nanos: 123_000_000 });
    assert_eq!(msg.trace_id, 9);
    assert_eq!(msg.nickname, "");
}

#[test]
fn extracts_texts_and_references() {
    let segs = json(
        r#"[{"type":"at","data":{"qq":"1"}},{"type":"text","data":{"text":"a"}},{"type":"text"},{"type":"text","data":{"text":"b"}}]"#,
    );
    assert_eq!(extract_text(&segs), Some("ab".to_string()));
    assert_eq!(extract_reply_to(&segs), None);
    assert_eq!(extract_reply_to(&json(r#"[{"type":"reply","data":{"id":5}}]"#)), Some(5));
    assert_eq!(extract_reply_to(&json(r#"[{"type":"reply","data":{"id":-5}}]"#)), None);
    assert_eq!(extract_reply_to(&json(r#"[{"type":"reply","data":{"id":"x"}}]"#)), None);
    assert_eq!(
        extract_reply_to(&json(r#"[{"type":"reply"},{"type":"reply","data":{"id":5}}]"#)),
        None
    );
    assert_eq!(extract_reply_to(&json("\"text\"")), None);
}

#[test]
fn accepts_only_group_events() {
    let data = json(
        r#"{"post_type": "message", "message_type": "group", "group_id": 1, "user_id": 2, "message_id": 3, "message": "m"}"#,
    );
    assert!(accept_event("message.group.normal", &data).is_some());
    assert!(accept_event("message.private", &data).is_none());
    assert!(accept_event("message.group", &Json::Null).is_none());
}

#[test]
fn builds_group_reply() {
    let j = build_onebot11_group_reply(&"12345".to_string(), "喵");
    assert_eq!(j.to_text(), r#"{"action":"send_group_msg","params":{"group_id":12345,"message":"喵"}}"#);
    let j = build_onebot11_group_reply(&"not a number".to_string(), "x");
    assert_eq!(j.to_text(), r#"{"action":"send_group_msg","params":{"group_id":0,"message":"x"}}"#);
    let j = build_onebot11_group_reply(&"-7".to_string(), "x");
    assert_eq!(j.to_text(), r#"{"action":"send_group_msg","params":{"group_id":-7,"message":"x"}}"#);
}

fn ingress() -> NapCatIngress {
    NapCatIngress::new("ws://x".to_string(), Some("t".to_string()), 5000)
}

#[test]
fn full_channel_counts_and_drops() {
    let mut link = ingress();
    assert_eq!(link.push_or_drop(Delivery::Sent), Listen::Continue);
    assert_eq!(link.drop_count(), 0);

    // Channel is full: the second message is dropped and counted.
    assert_eq!(link.push_or_drop(Delivery::Full), Listen::Warn(1));
    assert_eq!(link.drop_count(), 1);
}

#[test]
fn closed_channel_signals_fatal() {
    let mut link = ingress();
    assert_eq!(link.push_or_drop(Delivery::Closed), Listen::Stop);
    assert_eq!(link.drop_count(), 0);
}

#[test]
fn few_drops_are_mentioned() {
    let mut link = ingress();
    let mut warned: Vec<u64> = vec![];
    for _ in 0..250 {
        if let Listen::Warn(n) = link.push_or_drop(Delivery::Full) {
            warned.push(n);
        }
    }
    assert_eq!(warned, vec![1, 2, 3, 4, 100, 200]);
    assert_eq!(link.drop_count(), 250);
    assert_eq!(link.url(), "ws://x");
    assert_eq!(link.token(), &Some("t".to_string()));
    assert_eq!(link.reconnect_interval_ms(), 5000);
}

#[test]
fn connection_is_opened_again_until_shutdown() {
    assert_eq!(next_connection(false, None), Connection::Connect);
    assert_eq!(next_connection(true, None), Connection::Stop);
    assert_eq!(next_connection(false, Some(true)), Connection::Wait);
    assert_eq!(next_connection(true, Some(true)), Connection::Stop);
    assert_eq!(next_connection(true, Some(false)), Connection::Wait);
}

fn reply(group: &str, platform: Option<i64>) -> ReplyOut {
    ReplyOut {
        id: 1,
        reply_to: 2,
        reply_to_platform: platform,
        group_id: group.to_string(),
        target_user: "u".to_string(),
        content: "喵".to_string(),
        layer: "council".to_string(),
        trace_id: 3,
    }
}

#[test]
fn replies_quote_where_they_can() {
    let send = plan_send(&reply("12345", Some(9))).unwrap();
    assert_eq!(send.group_id, 12345);
    assert_eq!(send.segments, vec![Segment::Reply(9), Segment::Text("喵".to_string())]);
    let send = plan_send(&reply("12345", None)).unwrap();
    assert_eq!(send.segments, vec![Segment::Text("喵".to_string())]);
    let err = plan_send(&reply("g1", None)).unwrap_err();
    assert_eq!(err.message(), "transport error: invalid group_id: invalid digit found in string");
}
