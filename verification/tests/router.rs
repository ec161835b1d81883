use neko_router::clock::Timestamp;
use neko_router::cooldown::ReplyCooldown;
use neko_router::error::NekoError;
use neko_router::json::Json;
use neko_router::observe::{
    event_line, message_line, observe_limit, reply_line, short_id, truncate, view_lines,
    wants_observe, Overview,
};
use neko_router::router::{
    channel_closed, count_reply, dispatch_event, dispatch_event_full, dispatch_event_with_state,
    persist_reply,
    platform_message_id, resume_reply, Action, Channel, Dispatch,
};
use neko_router::single::Single;
use neko_router::status::respond;
use neko_router::store::{
    id_column, message_row, row_to_message, rows_to_context, rows_to_states, state_row, stored_payload,
    stored_event, stored_message, stored_reply, timestamp_to_utc, MessageRow, StoredEvent,
    StoredEventRow, StoredMessage, StoredMessageRow, StoredReply, StoredReplyRow,
};
use neko_router::types::{
    AffectiveDeltaUpdate, AffectiveState, ChatMessage, CouncilAction, CouncilDecision,
    DetectiveInput, DetectiveReport, DropReason, EngagementType, EscalationReason, Event,
    GateDecision, GraphRelationUpdate, MemoryDecision, MemoryUpdate, ReplyOut, RuntimeState, Tone,
    TopicBurst, TopicBurstScore, VectorCultureUpdate, VectorFactUpdate,
};

fn single(x: f32) -> Single {
    Single { bits: x.to_bits() }
}

fn make_message(content: &str) -> ChatMessage {
    ChatMessage {
        id: uuid::Uuid::new_v4().as_u128(),
        trace_id: 0,
        group_id: "12345".to_string(),
        sender: "67890".to_string(),
        nickname: "Alice".to_string(),
        content: content.to_string(),
        timestamp: Timestamp { secs: 1_700_000_000, nanos: 5_000_000 },
        reply_to: None,
        raw_payload: Json::Null,
    }
}

fn reply() -> ReplyOut {
    ReplyOut {
        id: 11,
        reply_to: 22,
        reply_to_platform: None,
        group_id: "12345".to_string(),
        target_user: "67890".to_string(),
        content: "喵".to_string(),
        layer: "gate".to_string(),
        trace_id: 33,
    }
}

fn report() -> DetectiveReport {
    DetectiveReport {
        message_id: 0,
        trace_id: 0,
        group_id: String::new(),
        target_user: "67890".to_string(),
        summary: String::new(),
        historical_facts: vec![],
        psychological_weaknesses: vec![],
        relationship_changes: vec![],
        recommended_tone: Tone::Neutral,
        confidence: single(0.0),
    }
}

fn route(event: Event) -> Vec<Action> {
    let mut none = None;
    match dispatch_event(event, &mut none, Timestamp::now()) {
        Dispatch::Perform(actions) => actions,
        other => panic!("unexpected {other:?}"),
    }
}

#[test]
fn router_routes_reply_out_to_egress_sensory_and_sqlite() {
    let mut none = None;
    let waiting = match dispatch_event(Event::ReplyOut(reply()), &mut none, Timestamp::now()) {
        Dispatch::AwaitQuote(r) => r,
        other => panic!("unexpected {other:?}"),
    };
    let actions = resume_reply(waiting, Ok(None), false);
    assert_eq!(actions.len(), 3);
    assert!(matches!(&actions[0], Action::InsertReply(row)
        if row.id == 11 && row.message_id == 22 && row.content == "喵" && row.layer == "gate"));
    assert!(matches!(&actions[1], Action::SendOut(r) if r.content == "喵" && r.reply_to_platform.is_none()));
    assert!(matches!(&actions[2], Action::Forward(c, Event::ReplyOut(_)) if *c == vec![Channel::Sensory]));
}

#[test]
fn quoting_replies_carry_the_platform_id() {
    let failed = resume_reply(reply(), Err(NekoError::llm("x".to_string())), false);
    assert!(matches!(&failed[1], Action::SendOut(r) if r.reply_to_platform.is_none()));
    let actions = resume_reply(reply(), Ok(Some(9)), true);
    assert_eq!(actions.len(), 4);
    assert!(matches!(&actions[1], Action::SendOut(r) if r.reply_to_platform == Some(9)));
    assert!(matches!(&actions[2], Action::CountReply));
    let mut quoted = reply();
    quoted.reply_to_platform = Some(5);
    let mut none = None;
    match dispatch_event_with_state(Event::ReplyOut(quoted), &mut none, Timestamp::now(), true) {
        Dispatch::Perform(a) => assert_eq!(a.len(), 4),
        other => panic!("unexpected {other:?}"),
    }
    let row = persist_reply(&reply());
    assert_eq!((row.id, row.message_id), (11, 22));
}

#[test]
fn router_persists_gate_and_council_decisions() {
    let first = route(Event::GateDecision(GateDecision::Drop(DropReason::Spam)));
    let second = route(Event::CouncilDecision(CouncilDecision {
        action: CouncilAction::Ignore,
        reasoning: "no reply needed".to_string(),
        draft_reply: None,
    }));
    // Neither decision produces a reply; each is recorded once.
    assert_eq!(first.len(), 1);
    assert_eq!(second.len(), 1);
    assert!(matches!(&first[0], Action::InsertEvent(k, p)
        if k == "gate_decision" && p.to_text() == r#"{"decision":"Drop(Spam)"}"#));
    assert!(matches!(&second[0], Action::InsertEvent(k, p)
        if k == "council_decision" && p.to_text() == r#"{"action":"Ignore","reasoning":"no reply needed"}"#));
}

#[test]
fn decisions_are_written_out() {
    let shown = |d: GateDecision| match &route(Event::GateDecision(d))[0] {
        Action::InsertEvent(_, p) => p.get("decision").and_then(|t| t.as_str()).unwrap_or("").to_string(),
        other => panic!("unexpected {other:?}"),
    };
    let cases = [
        GateDecision::Drop(DropReason::TooLong),
        GateDecision::Drop(DropReason::BannedUser),
        GateDecision::Drop(DropReason::Other("com\"mand".to_string())),
        GateDecision::Escalate(EscalationReason::Conflict, EngagementType::PersonalReply),
        GateDecision::Escalate(EscalationReason::StaleMeme, EngagementType::AmbientJoin),
        GateDecision::Escalate(EscalationReason::MaliciousContent, EngagementType::AmbientJoin),
        GateDecision::Escalate(EscalationReason::NeedsContext, EngagementType::PersonalReply),
        GateDecision::Escalate(EscalationReason::Other("x".to_string()), EngagementType::AmbientJoin),
    ];
    for d in cases {
        let want = format!("{d:?}");
        assert_eq!(shown(d), want);
    }
}

#[test]
fn router_forwards_events_to_downstream_layers() {
    let only = |event: Event| {
        let mut actions = route(event);
        assert_eq!(actions.len(), 1);
        match actions.remove(0) {
            Action::Forward(channels, event) => (channels, event),
            other => panic!("unexpected {other:?}"),
        }
    };
    let (c, e) = only(Event::Escalation(
        EscalationReason::NeedsContext,
        make_message("hello"),
        AffectiveState::default(),
        EngagementType::PersonalReply,
    ));
    assert_eq!(c, vec![Channel::Council]);
    assert!(matches!(e, Event::Escalation(..)));

    let (c, e) = only(Event::DetectiveRequest(DetectiveInput {
        message: make_message("hi"),
        state: AffectiveState::default(),
        target_user: "67890".to_string(),
    }));
    assert_eq!(c, vec![Channel::Detective]);
    assert!(matches!(e, Event::DetectiveRequest(_)));

    let (c, e) = only(Event::DetectiveReport(report()));
    assert_eq!(c, vec![Channel::Council, Channel::Solidify]);
    assert!(matches!(e, Event::DetectiveReport(_)));

    let (c, e) = only(Event::SolidifyTick);
    assert_eq!(c, vec![Channel::Solidify]);
    assert!(matches!(e, Event::SolidifyTick));

    let (c, e) = only(Event::TopicBurst(TopicBurst {
        group_id: "g".to_string(),
        messages: vec![],
        score: TopicBurstScore {
            messages_per_minute: single(1.0),
            unique_participants: 1,
            avg_gap_seconds: single(1.0),
            coherence: None,
        },
        detected_at: Timestamp::now(),
    }));
    assert_eq!(c, vec![Channel::Detective]);
    assert!(matches!(e, Event::TopicBurst(_)));

    assert!(route(Event::IncomingMessage(make_message("x"))).is_empty());
    assert!(route(Event::AffectiveUpdated("g".to_string(), "u".to_string(), AffectiveState::default())).is_empty());
}

#[test]
fn daily_context_is_kept_and_handed_on() {
    let actions = route(Event::DailyContext("ctx".to_string()));
    assert_eq!(actions.len(), 2);
    assert!(matches!(&actions[0], Action::InsertEvent(k, p)
        if k == "daily_context" && p.to_text() == r#"{"context":"ctx"}"#));
    assert!(matches!(&actions[1], Action::Forward(c, Event::DailyContext(t))
        if *c == vec![Channel::Council] && t == "ctx"));
}

#[test]
fn second_reply_in_the_interval_is_suppressed() {
    let mut cd = Some(ReplyCooldown::new(3_000_000_000));
    let t = Timestamp { secs: 1000, nanos: 0 };
    let at = |s: i64| Timestamp { secs: 1000 + s, nanos: 0 };
    assert!(matches!(dispatch_event(Event::ReplyOut(reply()), &mut cd, t), Dispatch::AwaitQuote(_)));
    assert!(matches!(dispatch_event(Event::ReplyOut(reply()), &mut cd, at(2)), Dispatch::Suppressed));
    let mut other = reply();
    other.group_id = "999".to_string();
    assert!(matches!(dispatch_event(Event::ReplyOut(other), &mut cd, at(2)), Dispatch::AwaitQuote(_)));
    assert!(matches!(dispatch_event(Event::ReplyOut(reply()), &mut cd, at(3)), Dispatch::Suppressed));
    let past = Timestamp { secs: 1003, nanos: 1 };
    assert!(matches!(dispatch_event(Event::ReplyOut(reply()), &mut cd, past), Dispatch::AwaitQuote(_)));
}

#[test]
fn marks_are_saved_for_replies_that_go_out() {
    let mut cd = Some(ReplyCooldown::new(3_000_000_000));
    let t = Timestamp { secs: 1000, nanos: 0 };
    let later = Timestamp { secs: 1002, nanos: 0 };
    let (_, mark) = dispatch_event_full(Event::ReplyOut(reply()), &mut cd, t, true);
    assert_eq!(mark, Some((reply().group_id, t)));
    let (decided, mark) = dispatch_event_full(Event::ReplyOut(reply()), &mut cd, later, true);
    assert!(matches!(decided, Dispatch::Suppressed) && mark.is_none());
    assert_eq!(dispatch_event_full(Event::SolidifyTick, &mut cd, later, true).1, None);
    assert_eq!(dispatch_event_full(Event::ReplyOut(reply()), &mut None, later, true).1, None);
    let mut again = ReplyCooldown::new_with_store(3_000_000_000, vec![(reply().group_id, t)]);
    assert!(!again.allow_at(&reply().group_id, later));
}

#[test]
fn memory_goes_where_it_belongs() {
    let decision = MemoryDecision {
        group_id: "g".to_string(),
        summary: "s".to_string(),
        updates: vec![
            MemoryUpdate::VectorFact(VectorFactUpdate {
                content: "f".to_string(),
                tags: vec!["pet".to_string()],
                related_users: vec!["u1".to_string(), "u2".to_string()],
            }),
            MemoryUpdate::VectorCulture(VectorCultureUpdate {
                content: "c".to_string(),
                tags: vec!["culture".to_string()],
                related_users: vec![],
            }),
            MemoryUpdate::GraphRelation(GraphRelationUpdate {
                from: "u1".to_string(),
                to: "u2".to_string(),
                relation: "互怼".to_string(),
                delta: single(-0.2),
                evidence: "e".to_string(),
            }),
            MemoryUpdate::AffectiveDelta(AffectiveDeltaUpdate {
                target_user: "u1".to_string(),
                energy_delta: single(0.0),
                favorability_delta: single(0.1),
                mood: Some("m".to_string()),
                reason: "r".to_string(),
            }),
        ],
    };
    let actions = route(Event::MemoryDecision(decision));
    assert_eq!(actions.len(), 4);
    match &actions[0] {
        Action::Store(r) => {
            assert_eq!(r.tags, vec!["pet".to_string(), "fact".to_string()]);
            assert_eq!((r.speaker_id.as_str(), r.text.as_str(), r.group_id.as_str()), ("u1", "f", "g"));
        }
        other => panic!("unexpected {other:?}"),
    }
    match &actions[1] {
        Action::Store(r) => {
            assert_eq!(r.tags, vec!["culture".to_string()]);
            assert_eq!(r.speaker_id, "");
        }
        other => panic!("unexpected {other:?}"),
    }
    assert!(matches!(&actions[2], Action::MergeRelation(u) if u.relation == "互怼"));
    assert!(matches!(&actions[3], Action::AdjustState(g, u) if g == "g" && u.mood == Some("m".to_string())));
}

#[test]
fn closed_channels_are_named() {
    assert_eq!(channel_closed(Channel::Sensory).message(), "transport error: sensory routed channel closed");
    assert_eq!(channel_closed(Channel::Council).message(), "transport error: council channel closed");
    assert_eq!(channel_closed(Channel::Detective).message(), "transport error: detective channel closed");
    assert_eq!(channel_closed(Channel::Solidify).message(), "transport error: solidify channel closed");
}

#[test]
fn platform_ids_are_found_in_payloads() {
    assert_eq!(platform_message_id(r#"{"message_id": 111}"#), Some(111));
    assert_eq!(platform_message_id(r#"{"message_id": "-5"}"#), Some(-5));
    assert_eq!(platform_message_id(r#"{"message_id": "abc"}"#), None);
    assert_eq!(platform_message_id("{}"), None);
    assert_eq!(platform_message_id("nope"), None);
}

fn runtime() -> RuntimeState {
    RuntimeState {
        started_at: Timestamp { secs: 1_700_000_000, nanos: 0 },
        messages_received: 0,
        replies_sent: 0,
        connected: true,
    }
}

fn ask(request: &[u8]) -> Option<String> {
    let now = Timestamp { secs: 1_700_000_090, nanos: 0 };
    respond(&request.to_vec(), &runtime(), 42, now, "0.1.0")
}

#[test]
fn status_endpoint_returns_json() {
    let response = ask(b"GET /status HTTP/1.1\r\nHost: localhost\r\nConnection: close\r\n\r\n").unwrap();
    assert!(response.contains("HTTP/1.1 200 OK"));
    assert!(response.contains("\"status\":\"ok\""));
    assert!(response.contains("\"ingress_drops\":42"));
    assert!(response.contains("\"messages_received\":0"));
    let body = r#"{"status":"ok","version":"0.1.0","started_at":"2023-11-14T22:13:20+00:00","uptime_sec":90,"messages_received":0,"replies_sent":0,"ingress_drops":42,"connected":true}"#;
    assert_eq!(
        response,
        format!(
            "HTTP/1.1 200 OK\r\nContent-Type: application/json\r\nContent-Length: {}\r\nConnection: close\r\n\r\n{body}",
            body.len()
        )
    );
}

#[test]
fn unknown_path_returns_404() {
    let response = ask(b"GET /unknown HTTP/1.1\r\nHost: localhost\r\nConnection: close\r\n\r\n").unwrap();
    assert!(response.contains("HTTP/1.1 404 OK"));
    assert!(response.ends_with("Content-Length: 21\r\nConnection: close\r\n\r\n{\"error\":\"not found\"}"));
    assert!(ask(b"GET /statusx HTTP/1.1").unwrap().contains("404"));
    assert!(ask(&[0xff, 0xfe]).unwrap().contains("404"));
    assert_eq!(ask(b""), None);
}

#[test]
fn sent_replies_are_counted() {
    let mut s = runtime();
    count_reply(&mut s);
    count_reply(&mut s);
    assert_eq!((s.replies_sent, s.messages_received), (2, 0));
    s.replies_sent = u64::MAX;
    count_reply(&mut s);
    assert_eq!(s.replies_sent, 0);
}

#[test]
fn affective_states_round_trip() {
    let now = Timestamp { secs: 1_700_000_000, nanos: 0 };
    let s1 = AffectiveState {
        energy: single(0.7),
        favorability: single(0.3),
        reply_count: 5,
        last_updated: Some(now),
    };
    let s2 = AffectiveState {
        energy: single(0.2),
        favorability: single(-0.1),
        reply_count: 1,
        last_updated: Some(now),
    };
    let rows = vec![
        state_row(&"g1".to_string(), &"u1".to_string(), &s1),
        state_row(&"g2".to_string(), &"u2".to_string(), &s2),
    ];
    assert_eq!(rows[0].updated_at, 1_700_000_000_000);
    let loaded = rows_to_states(&rows).unwrap();
    assert_eq!(loaded.len(), 2);
    assert_eq!(loaded[0], ("g1".to_string(), "u1".to_string(), s1));
    assert_eq!(loaded[1], ("g2".to_string(), "u2".to_string(), s2));

    let mut bad = rows[0].clone();
    bad.updated_at = i64::MAX;
    assert_eq!(
        rows_to_states(&vec![rows[1].clone(), bad]).unwrap_err().message(),
        "database error: invalid snapshot timestamp"
    );
    let big = AffectiveState { reply_count: u64::MAX, ..s1 };
    let row = state_row(&"g".to_string(), &"u".to_string(), &big);
    assert_eq!(row.reply_count, -1);
    assert_eq!(rows_to_states(&vec![row]).unwrap()[0].2.reply_count, u64::MAX);
}

#[test]
fn messages_round_trip() {
    let mut m = make_message("你好");
    m.reply_to = Some(77);
    m.raw_payload = Json::parse(r#"{"message_id":1,"message":"x"}"#).unwrap();
    let row = message_row(&m);
    assert_eq!(row.id, id_column(m.id));
    assert_eq!(row.created_at, 1_700_000_000_005);
    assert_eq!(row_to_message(&row).unwrap(), m);
}

fn broken(change: fn(&mut MessageRow)) -> String {
    let mut row = message_row(&make_message("x"));
    change(&mut row);
    match row_to_message(&row) {
        Ok(_) => "ok".to_string(),
        Err(e) => e.message(),
    }
}

#[test]
fn broken_rows_are_named() {
    assert_eq!(broken(|_| {}), "ok");
    assert!(broken(|r| r.id = "x".to_string()).starts_with("database error: invalid message id: "));
    assert!(broken(|r| r.reply_to = Some("x".to_string())).starts_with("database error: invalid reply_to id: "));
    assert_eq!(broken(|r| r.created_at = i64::MIN), "database error: invalid timestamp");
    assert!(broken(|r| r.raw_payload = "{".to_string()).starts_with("database error: invalid raw_payload json: "));
    let mut row = message_row(&make_message("x"));
    row.sender_nick = None;
    assert_eq!(row_to_message(&row).unwrap().nickname, "");
}

#[test]
fn context_is_turned_around() {
    let rows: Vec<MessageRow> = ["c", "b", "a"].iter().map(|s| message_row(&make_message(s))).collect();
    let got: Vec<String> = rows_to_context(&rows).unwrap().into_iter().map(|m| m.content).collect();
    assert_eq!(got, vec!["a".to_string(), "b".to_string(), "c".to_string()]);
    let mut two = rows.clone();
    two[0].created_at = i64::MAX;
    two[2].id = "x".to_string();
    // The oldest bad row is met first.
    assert!(rows_to_context(&two).unwrap_err().message().contains("invalid message id"));
}

#[test]
fn stored_values_are_read() {
    assert_eq!(timestamp_to_utc(1000).unwrap(), Timestamp { secs: 1, nanos: 0 });
    assert_eq!(timestamp_to_utc(i64::MAX).unwrap_err().message(), "database error: invalid stored timestamp");
    assert_eq!(stored_payload("{\"a\":1}"), Json::parse("{\"a\":1}").unwrap());
    assert_eq!(stored_payload("nope"), Json::Text("nope".to_string()));
}

#[test]
fn stored_rows_are_shown() {
    let m = stored_message(StoredMessageRow {
        id: "i".to_string(),
        group_id: "g".to_string(),
        sender_id: "s".to_string(),
        sender_nick: Some("n".to_string()),
        content: "c".to_string(),
        reply_to: None,
        created_at: 1500,
    })
    .unwrap();
    assert_eq!((m.id.as_str(), m.sender_nick.as_deref()), ("i", Some("n")));
    assert_eq!(m.created_at, Timestamp { secs: 1, nanos: 500_000_000 });
    let r = stored_reply(StoredReplyRow {
        id: "i".to_string(),
        message_id: "m".to_string(),
        layer: "l".to_string(),
        content: "c".to_string(),
        sent_at: i64::MAX,
    });
    assert_eq!(r.unwrap_err().message(), "database error: invalid stored timestamp");
    let e = stored_event(StoredEventRow {
        id: "i".to_string(),
        kind: "k".to_string(),
        payload: "[1]".to_string(),
        created_at: 0,
    })
    .unwrap();
    assert_eq!(e.payload.to_text(), "[1]");
}

fn args(list: &[&str]) -> Vec<String> {
    list.iter().map(|s| s.to_string()).collect()
}

#[test]
fn arguments_are_read() {
    assert!(wants_observe(&args(&["x", "--observe"])));
    assert!(!wants_observe(&args(&["x"])));
    assert_eq!(observe_limit(&args(&["x", "--limit", "5"])), 5);
    assert_eq!(observe_limit(&args(&["x", "--limit", "0"])), 0);
    assert_eq!(observe_limit(&args(&["x", "--limit", "-1"])), 10);
    assert_eq!(observe_limit(&args(&["x", "--limit"])), 10);
    assert_eq!(observe_limit(&args(&["x"])), 10);
}

#[test]
fn view_has_an_overview_and_lists() {
    let o = Overview { path: "p.db".to_string(), messages: 3, replies: 2, events: 1, snapshots: 0 };
    let head = [
        "== NekoRouter observability ==",
        "database:  p.db",
        "messages:  3",
        "replies:   2",
        "events:    1",
        "snapshots: 0",
        "",
    ];
    assert_eq!(view_lines(&o, 0, &vec![], &vec![], &vec![]), args(&head));
    let e = StoredEvent {
        id: "i".to_string(),
        kind: "k".to_string(),
        payload: Json::Null,
        created_at: Timestamp { secs: 0, nanos: 0 },
    };
    let mut want = args(&head);
    want.extend(args(&[
        "-- last 5 messages --",
        "",
        "-- last 5 replies --",
        "",
        "-- last 5 events --",
        "01-01 00:00:00 [k] null",
    ]));
    assert_eq!(view_lines(&o, 5, &vec![], &vec![], &vec![e]), want);
}

#[test]
fn lines_are_written() {
    let t = Timestamp { secs: 1_700_000_000, nanos: 0 };
    let mut m = StoredMessage {
        id: "i".to_string(),
        group_id: "g".to_string(),
        sender_id: "s".to_string(),
        sender_nick: None,
        content: "喵".repeat(81),
        reply_to: Some("12345678-9".to_string()),
        created_at: t,
    };
    assert_eq!(
        message_line(&m),
        format!("11-14 22:13:20 [g] s: {}… (reply to 12345678)", "喵".repeat(80))
    );
    m.sender_nick = Some("n".to_string());
    m.content = "x".to_string();
    m.reply_to = None;
    assert_eq!(message_line(&m), "11-14 22:13:20 [g] n: x");
    let r = StoredReply {
        id: "i".to_string(),
        message_id: "abc".to_string(),
        layer: "council".to_string(),
        content: "c".to_string(),
        sent_at: t,
    };
    assert_eq!(reply_line(&r), "11-14 22:13:20 [council] <abc> c");
    let e = StoredEvent {
        id: "i".to_string(),
        kind: "k".to_string(),
        payload: Json::parse("{\"a\": 1}").unwrap(),
        created_at: t,
    };
    assert_eq!(event_line(&e), "11-14 22:13:20 [k] {\"a\":1}");
    assert_eq!(truncate("abc", 3), "abc");
    assert_eq!(truncate("abc", 2), "ab…");
    assert_eq!(short_id("ééééé"), "éééé");
    assert_eq!(short_id("aéééé"), "aéééé");
}
