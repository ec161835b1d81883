use neko_router::clock::Timestamp;
use neko_router::detective::{
    closest, detective_prompt, detective_task, fact_query, is_worth_checking, memory_curator_prompt,
    parse_detective_report, parse_memory_decision, parse_relation_kind, parse_tone,
    DetectiveActor, DetectiveConfig, DetectiveReportJson, DetectiveTask, FactJson,
    RelationshipChangeJson, WeaknessJson,
};
use neko_router::error::NekoError;
use neko_router::json::Json;
use neko_router::single::Single;
use neko_router::store::id_column;
use neko_router::types::{
    AffectiveState, ChatMessage, DetectiveInput, DetectiveReport, Event, Fact, FinishReason,
    GraphRelationUpdate, LlmResponse, MemoryDecision, MemoryRecord, MemoryUpdate, RelationKind,
    TokenUsage, Tone, TopicBurst, TopicBurstScore,
};
use neko_router::vector_store::InMemoryVectorStore;
use serde_json::Value;
use std::sync::Arc;

fn single(x: f32) -> Single {
    Single { bits: x.to_bits() }
}

fn value(x: Single) -> f32 {
    f32::from_bits(x.bits)
}

fn show(x: Single) -> String {
    format!("{:.2}", f32::from_bits(x.bits))
}

fn text(v: &Value, key: &str) -> Result<String, String> {
    match v.get(key) {
        Some(Value::String(s)) => Ok(s.clone()),
        _ => Err(format!("missing field `{key}`")),
    }
}

fn text_or_empty(v: &Value, key: &str) -> String {
    v.get(key).and_then(|t| t.as_str()).unwrap_or("").to_string()
}

fn number(v: &Value, key: &str) -> Single {
    single(v.get(key).and_then(|n| n.as_f64()).unwrap_or(0.0) as f32)
}

fn list(v: &Value, key: &str) -> Vec<Value> {
    v.get(key).and_then(|l| l.as_array()).cloned().unwrap_or_default()
}

fn texts(v: &Value, key: &str) -> Vec<String> {
    list(v, key).iter().filter_map(|t| t.as_str().map(|s| s.to_string())).collect()
}

fn read(raw: &str) -> Result<DetectiveReportJson, String> {
    let v: Value = serde_json::from_str(raw).map_err(|e| e.to_string())?;
    let mut facts = vec![];
    for f in list(&v, "historical_facts") {
        facts.push(FactJson { text: text(&f, "text")?, evidence: texts(&f, "evidence") });
    }
    let mut weak = vec![];
    for w in list(&v, "psychological_weaknesses") {
        weak.push(WeaknessJson {
            description: text(&w, "description")?,
            severity: number(&w, "severity"),
        });
    }
    let mut changes = vec![];
    for r in list(&v, "relationship_changes") {
        changes.push(RelationshipChangeJson {
            from: text(&r, "from")?,
            to: text(&r, "to")?,
            kind: text_or_empty(&r, "kind"),
            delta: number(&r, "delta"),
            evidence: texts(&r, "evidence"),
        });
    }
    Ok(DetectiveReportJson {
        target_user: text(&v, "target_user")?,
        summary: text_or_empty(&v, "summary"),
        historical_facts: facts,
        psychological_weaknesses: weak,
        relationship_changes: changes,
        recommended_tone: text_or_empty(&v, "recommended_tone"),
        confidence: number(&v, "confidence"),
    })
}

fn answer(content: &str) -> Result<LlmResponse, NekoError> {
    Ok(LlmResponse {
        content: content.to_string(),
        usage: TokenUsage { prompt_tokens: 0, completion_tokens: 0, total_tokens: 0 },
        finish_reason: FinishReason::Stop,
    })
}

fn make_message(content: &str) -> ChatMessage {
    ChatMessage {
        id: uuid::Uuid::new_v4().as_u128(),
        trace_id: uuid::Uuid::new_v4().as_u128(),
        group_id: "12345".to_string(),
        sender: "67890".to_string(),
        nickname: "Alice".to_string(),
        content: content.to_string(),
        timestamp: Timestamp::now(),
        reply_to: None,
        raw_payload: Json::Null,
    }
}

fn input(content: &str) -> DetectiveInput {
    DetectiveInput {
        message: make_message(content),
        state: AffectiveState {
            energy: single(0.6),
            favorability: single(0.4),
            reply_count: 0,
            last_updated: None,
        },
        target_user: "67890".to_string(),
    }
}

#[test]
fn parses_full_report() {
    let raw = r#"{
        "target_user": "u1",
        "summary": "summary text",
        "historical_facts": [{"text": "fact1", "evidence": ["e1"]}],
        "psychological_weaknesses": [{"description": "weak", "severity": 1.5}],
        "relationship_changes": [{"from": "a", "to": "b", "kind": "tease", "delta": -0.2, "evidence": ["e2"]}],
        "recommended_tone": "warm",
        "confidence": 2.0
    }"#;
    let report = parse_detective_report(raw, &read).unwrap();
    assert_eq!(report.target_user, "u1");
    assert_eq!(report.summary, "summary text");
    assert_eq!(report.historical_facts.len(), 1);
    assert_eq!(report.historical_facts[0].evidence, vec!["e1".to_string()]);
    assert_eq!(value(report.psychological_weaknesses[0].severity), 1.0);
    assert_eq!(report.relationship_changes[0].kind, RelationKind::Tease);
    assert_eq!(value(report.relationship_changes[0].delta), -0.2);
    assert_eq!(report.recommended_tone, Tone::Warm);
    assert_eq!(value(report.confidence), 1.0);
}

#[test]
fn defaults_empty_fields() {
    let raw = r#"{"target_user": "u1", "summary": ""}"#;
    let report = parse_detective_report(raw, &read).unwrap();
    assert!(report.historical_facts.is_empty());
    assert!(report.psychological_weaknesses.is_empty());
    assert!(report.relationship_changes.is_empty());
    assert_eq!(report.recommended_tone, Tone::Neutral);
    assert_eq!(value(report.confidence), 0.0);
}

#[test]
fn parses_relation_kinds_and_tones() {
    let cases = [
        ("support", RelationKind::Support),
        ("conflict", RelationKind::Conflict),
        ("intimacy", RelationKind::Intimacy),
        ("neutral", RelationKind::Neutral),
        ("custom", RelationKind::Other("custom".to_string())),
    ];
    for (kind_str, expected) in cases {
        let raw = format!(
            r#"{{"target_user":"x","summary":"","relationship_changes":[{{"from":"a","to":"b","kind":"{}","delta":0,"evidence":[]}}]}}"#,
            kind_str
        );
        let report = parse_detective_report(&raw, &read).unwrap();
        assert_eq!(report.relationship_changes[0].kind, expected);
    }

    let raw = r#"{"target_user":"x","summary":"","recommended_tone":"sarcastic"}"#;
    let report = parse_detective_report(raw, &read).unwrap();
    assert_eq!(report.recommended_tone, Tone::Sarcastic);
}

#[test]
fn parser_malformed_json_returns_error() {
    let err = parse_detective_report("not json", &read).unwrap_err();
    assert!(matches!(err, NekoError::Parse(_)));
}

#[test]
fn names_are_read_in_any_case() {
    assert_eq!(parse_relation_kind("TeAsE"), RelationKind::Tease);
    assert_eq!(parse_relation_kind("FOO"), RelationKind::Other("foo".to_string()));
    assert_eq!(parse_tone("WARM"), Tone::Warm);
    assert_eq!(parse_tone("cold"), Tone::Cold);
    assert_eq!(parse_tone("Playful"), Tone::Playful);
    assert_eq!(parse_tone("cautious"), Tone::Cautious);
    assert_eq!(parse_tone(""), Tone::Neutral);
}

#[test]
fn prompt_contains_target_and_state() {
    let prompt = detective_prompt(&input("你觉得呢"), &vec![], &vec![], &show);
    assert!(prompt.contains("目标用户：67890"));
    assert!(prompt.contains("当前消息：\"你觉得呢\""));
    assert!(prompt.contains("精力值：0.60"));
    assert!(prompt.contains("好感度：0.40"));
}

#[test]
fn prompt_handles_empty_history() {
    let prompt = detective_prompt(&input("hi"), &vec![], &vec![], &show);
    assert!(prompt.contains("（无历史记录）"));
}

#[test]
fn prompt_lists_history() {
    let mut first = make_message("first");
    first.nickname = "Bob".to_string();
    let mut second = make_message("second");
    second.nickname = "Alice".to_string();
    let prompt = detective_prompt(&input("hi"), &vec![first, second], &vec![], &show);
    assert!(prompt.contains("[Bob]: first"));
    assert!(prompt.contains("[Alice]: second"));
    assert!(!prompt.contains("（无历史记录）"));
}

#[test]
fn report_prompt_is_exact() {
    let mut m = make_message("x");
    m.timestamp = Timestamp { secs: 1_700_000_000, nanos: 0 };
    let prompt = detective_prompt(&input("你觉得呢"), &vec![m], &vec![], &show);
    let want = "你是一台无情的侦探机器。请根据以下信息生成一份脱水、结构化的 JSON 结案报告。\n\n目标用户：67890\n当前消息：\"你觉得呢\"\n精力值：0.60\n好感度：0.40\n\n历史记录：\n22:13 [Alice]: x\n\n请只输出 JSON，格式如下：\n{\n\"target_user\": \"67890\",\n\"summary\": \"一句话总结\",\n\"historical_facts\": [{\"text\": \"事实\", \"evidence\": [\"证据1\"]}],\n\"psychological_weaknesses\": [{\"description\": \"弱点描述\", \"severity\": 0.5}],\n\"relationship_changes\": [{\"from\": \"user_a\", \"to\": \"user_b\", \"kind\": \"tease\", \"delta\": -0.1, \"evidence\": [\"证据\"]}],\n\"recommended_tone\": \"warm\" | \"cold\" | \"playful\" | \"cautious\" | \"neutral\",\n\"confidence\": 0.8\n}";
    assert_eq!(prompt, want);
}

#[test]
fn prompt_lists_memory() {
    let record = |text: &str| {
        Arc::new(MemoryRecord {
            id: "1".to_string(),
            group_id: "12345".to_string(),
            speaker_id: "67890".to_string(),
            target_id: None,
            text: text.to_string(),
            timestamp: Timestamp::now(),
            relation_delta: None,
            tags: vec![],
            layer: "detective".to_string(),
        })
    };
    let memory = vec![record("喜欢猫"), record("怕狗")];
    let prompt = detective_prompt(&input("hi"), &vec![], &memory, &show);
    assert!(prompt.contains(
        "历史记录：\n（无历史记录）\n\n相关记忆：\n- 喜欢猫\n- 怕狗\n\n请只输出 JSON，格式如下：\n"
    ));
    let actor = DetectiveActor::new(DetectiveConfig::default());
    let down = || NekoError::transport("down".to_string());
    let request = actor.report_request(&input("hi"), Err(down()), Ok(memory), &show);
    assert_eq!(request.messages[0].content, prompt);
    let blind = actor.report_request(&input("hi"), Ok(vec![]), Err(down()), &show);
    assert_eq!(blind.messages[0].content, detective_prompt(&input("hi"), &vec![], &vec![], &show));
}

fn burst(messages: Vec<ChatMessage>) -> TopicBurst {
    TopicBurst {
        group_id: "12345".to_string(),
        messages,
        score: TopicBurstScore {
            messages_per_minute: single(6.0),
            unique_participants: 3,
            avg_gap_seconds: single(1.0),
            coherence: None,
        },
        detected_at: Timestamp::now(),
    }
}

#[test]
fn curator_prompt_lists_the_conversation() {
    let mut m = make_message("x");
    m.timestamp = Timestamp { secs: 1_700_000_000, nanos: 0 };
    let prompt = memory_curator_prompt(&burst(vec![m.clone(), m]));
    assert!(prompt.starts_with("你是一位群聊记忆管理员。"));
    assert!(prompt.contains("\"group_id\": \"12345\",\n\"summary\""));
    assert!(prompt.contains("6. 没有值得记录的内容时，updates 可以为空。\n\n对话记录：\n"));
    assert!(prompt.ends_with("22:13 [Alice]: x\n22:13 [Alice]: x"));
}

#[test]
fn report_is_correlated_and_no_direct_reply() {
    let actor = DetectiveActor::new(DetectiveConfig::default());
    let req = input("你怎么看");
    let raw = r#"{"target_user":"67890","summary":"用户喜欢直接表达。","confidence":0.8,"recommended_tone":"Playful"}"#;
    let report = actor.on_report_answer(&req, answer(raw), &read).unwrap();
    assert_eq!(report.message_id, req.message.id);
    assert_eq!(report.trace_id, req.message.trace_id);
    assert_eq!(report.group_id, "12345");
    assert_eq!(report.target_user, "67890");
    assert_eq!(value(report.confidence), 0.8);
    assert_eq!(report.recommended_tone, Tone::Playful);
}

#[test]
fn low_confidence_produces_only_report() {
    let actor = DetectiveActor::new(DetectiveConfig::default());
    let raw = r#"{"target_user":"67890","summary":"不确定。","confidence":0.3}"#;
    let report = actor.on_report_answer(&input("?"), answer(raw), &read).unwrap();
    assert_eq!(value(report.confidence), 0.3);
    assert_eq!(report.summary, "不确定。");
}

fn fact(text: &str) -> Fact {
    Fact { text: text.to_string(), evidence: vec![], occurred_at: None }
}

fn report_with(facts: Vec<Fact>) -> DetectiveReport {
    DetectiveReport {
        message_id: 1,
        trace_id: 2,
        group_id: "12345".to_string(),
        target_user: "67890".to_string(),
        summary: "确认过。".to_string(),
        historical_facts: facts,
        psychological_weaknesses: vec![],
        relationship_changes: vec![],
        recommended_tone: Tone::Warm,
        confidence: single(0.9),
    }
}

#[test]
fn report_facts_are_learned_into_vector_store() {
    let actor = DetectiveActor::new(DetectiveConfig::default());
    let report = report_with(vec![fact("用户养了一只叫咪咪的猫。"), fact("   ")]);
    assert!(is_worth_checking(&report.historical_facts[0]));
    assert!(!is_worth_checking(&report.historical_facts[1]));
    let q = fact_query(&report, &report.historical_facts[0]).unwrap();
    assert_eq!((q.group_id, q.text, q.top_k), (report.group_id.clone(), report.historical_facts[0].text.clone(), 1));
    assert!(fact_query(&report, &report.historical_facts[1]).is_none());
    assert_eq!(closest(Ok(vec![])), None);
    assert_eq!(closest(Err(NekoError::llm("x".to_string()))), None);
    let records = actor.learned_records(&report, &vec![None, None]);

    // Only the non-blank fact is persisted, tagged as a learned fact.
    assert_eq!(records.len(), 1);
    assert_eq!(records[0].text, "用户养了一只叫咪咪的猫。");
    assert_eq!(records[0].speaker_id, "67890");
    assert_eq!(records[0].group_id, "12345");
    assert_eq!(records[0].layer, "detective");
    assert_eq!(records[0].tags, vec!["fact".to_string(), "detective".to_string()]);
}

#[test]
fn duplicate_facts_are_not_persisted_twice() {
    let mut store = InMemoryVectorStore::new();
    let group = "12345".to_string();
    store.embed_and_upsert(&vec![Arc::new(MemoryRecord {
        id: id_column(uuid::Uuid::new_v4().as_u128()),
        group_id: group.clone(),
        speaker_id: "67890".to_string(),
        target_id: None,
        text: "用户养了一只叫咪咪的猫。".to_string(),
        timestamp: Timestamp::now(),
        relation_delta: None,
        tags: vec!["fact".to_string()],
        layer: "detective".to_string(),
    })]);
    let actor = DetectiveActor::new(DetectiveConfig::default());
    let report = report_with(vec![fact("用户养了一只叫咪咪的猫。")]);
    let hit = store.search_with_score(&group, &report.historical_facts[0].text, 1);
    let records = actor.learned_records(&report, &vec![closest(Ok(hit))]);
    let shared: Vec<Arc<MemoryRecord>> = records.into_iter().map(Arc::new).collect();
    store.embed_and_upsert(&shared);

    // The duplicate fact is skipped, so the count stays at 1.
    assert_eq!(store.search(&group, "", 10).len(), 1);
}

#[test]
fn similar_facts_are_told_by_the_threshold() {
    let actor = DetectiveActor::new(DetectiveConfig::default());
    let when = Timestamp { secs: 5, nanos: 0 };
    let mut dated = fact("b");
    dated.occurred_at = Some(when);
    let report = report_with(vec![fact("a"), dated, fact("c")]);
    let similar = vec![Some(single(0.92)), Some(single(0.91)), Some(single(f32::NAN))];
    let records = actor.learned_records(&report, &similar);
    assert_eq!(records.len(), 2);
    assert_eq!(records[0].text, "b");
    assert_eq!(records[0].timestamp, when);
    assert_eq!(records[1].text, "c");
}

#[test]
fn llm_failure_produces_empty_report() {
    let actor = DetectiveActor::new(DetectiveConfig::default());
    let failed = Err(NekoError::llm("mock failure".to_string()));
    let report = actor.on_report_answer(&input("?"), failed, &read).unwrap();
    assert_eq!(report.target_user, "67890");
    assert!(report.summary.is_empty());
}

#[test]
fn parse_failure_is_graceful() {
    let actor = DetectiveActor::new(DetectiveConfig::default());
    assert!(actor.on_report_answer(&input("?"), answer("not json"), &read).is_err());
}

fn relation() -> MemoryUpdate {
    MemoryUpdate::GraphRelation(GraphRelationUpdate {
        from: "u1".to_string(),
        to: "u2".to_string(),
        relation: "互怼".to_string(),
        delta: single(-0.2),
        evidence: "e".to_string(),
    })
}

fn read_memory(raw: &str) -> Result<MemoryDecision, String> {
    let v: Value = serde_json::from_str(raw).map_err(|e| e.to_string())?;
    Ok(MemoryDecision {
        group_id: text(&v, "group_id")?,
        summary: text_or_empty(&v, "summary"),
        updates: list(&v, "updates").iter().map(|_| relation()).collect(),
    })
}

#[test]
fn burst_decision_belongs_to_its_group() {
    let actor = DetectiveActor::new(DetectiveConfig::default());
    let b = burst(vec![make_message("x")]);
    let raw = "```\n{\"group_id\":\"other\",\"summary\":\"s\",\"updates\":[1]}\n```";
    let d = actor.on_burst_answer(&b, answer(raw), &read_memory).unwrap();
    assert_eq!(d.group_id, "12345");
    assert_eq!(d.summary, "s");
    assert_eq!(d.updates.len(), 1);
    let empty = r#"{"group_id":"g","summary":"s","updates":[]}"#;
    assert!(actor.on_burst_answer(&b, answer(empty), &read_memory).is_none());
    assert!(actor.on_burst_answer(&b, answer("not json"), &read_memory).is_none());
    let failed = Err(NekoError::llm("x".to_string()));
    assert!(actor.on_burst_answer(&b, failed, &read_memory).is_none());
    let err = parse_memory_decision("{}", &read_memory).unwrap_err();
    assert_eq!(err.message(), "parse error: cannot parse memory decision: missing field `group_id`");
}

#[test]
fn queries_and_requests_follow_the_settings() {
    let actor = DetectiveActor::new(DetectiveConfig::default());
    let req = input("你觉得呢");
    let h = actor.history_query(&req);
    assert_eq!((h.limit, h.user_id.as_deref()), (20, Some("67890")));
    let now = Timestamp { secs: 5, nanos: 6 };
    assert_eq!(actor.history_query_at(&req, now).before, now);
    let m = actor.memory_query(&req);
    assert_eq!((m.top_k, m.text.as_str(), m.group_id.as_str()), (5, "你觉得呢", "12345"));
    let r = actor.report_request(&req, Ok(vec![]), Ok(vec![]), &show);
    assert_eq!(value(r.temperature), 0.7);
    assert_eq!(r.max_tokens, Some(1024));
    let b = actor.burst_request(&burst(vec![]));
    assert!(b.messages[0].content.ends_with("对话记录：\n"));
    assert_eq!(value(DetectiveConfig::default().fact_dedup_threshold), 0.92);
}

#[test]
fn detective_tasks_follow_events() {
    assert!(matches!(detective_task(Event::DetectiveRequest(input("x"))), DetectiveTask::Investigate(_)));
    assert!(matches!(detective_task(Event::TopicBurst(burst(vec![]))), DetectiveTask::Curate(_)));
    assert!(matches!(detective_task(Event::SolidifyTick), DetectiveTask::Nothing));
}
