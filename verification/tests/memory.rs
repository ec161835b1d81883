use neko_router::clock::Timestamp;
use neko_router::error::NekoError;
use neko_router::graph::{extract_kind, summary_text, InMemoryGraphStore, RelationRow};
use neko_router::json::{Json, JsonNumber};
use neko_router::single::{Calc, Single};
use neko_router::solidify::{
    after_apply, after_summary, daily_context, parse_solidify_updates, solidify_prompt,
    solidify_task, SolidifyActor, SolidifyConfig, SolidifyTask, TickStep,
};
use neko_router::store::id_column;
use neko_router::types::{
    DetectiveReport, Event, FinishReason, GraphUpdate, LlmResponse, MemoryRecord, RelationKind,
    RelationshipChange, TokenUsage, Tone,
};
use neko_router::vector_store::{
    points, query_vector, readable, texts_to_embed, InMemoryVectorStore,
};
use serde_json::Value;
use std::sync::Arc;

fn single(x: f32) -> Single {
    Single { bits: x.to_bits() }
}

fn value(x: Single) -> f32 {
    f32::from_bits(x.bits)
}

fn calc(c: Calc) -> Single {
    match c {
        Calc::Add(a, b) => single(value(a) + value(b)),
        Calc::Sub(a, b) => single(value(a) - value(b)),
        Calc::Mul(a, b) => single(value(a) * value(b)),
        Calc::Div(a, b) => single(value(a) / value(b)),
        Calc::OfInt(n) => single(n as f32),
    }
}

fn narrow(n: &JsonNumber) -> Single {
    match n {
        JsonNumber::Unsigned(u) => single(*u as f64 as f32),
        JsonNumber::Negative(i) => single(*i as f64 as f32),
        JsonNumber::Float { bits, .. } => single(f64::from_bits(*bits) as f32),
    }
}

fn show(x: Single) -> String {
    format!("{:.2}", value(x))
}

fn show_signed(x: Single) -> String {
    format!("{:+.2}", value(x))
}

fn record(group_id: &str, text: &str) -> MemoryRecord {
    MemoryRecord {
        id: id_column(uuid::Uuid::new_v4().as_u128()),
        group_id: group_id.to_string(),
        speaker_id: "u1".to_string(),
        target_id: None,
        text: text.to_string(),
        timestamp: Timestamp::now(),
        relation_delta: None,
        tags: vec![],
        layer: "test".to_string(),
    }
}

#[test]
fn stores_and_retrieves_records_by_keyword() {
    let mut store = InMemoryVectorStore::new();
    store.embed_and_upsert(&vec![
        Arc::new(record("g1", "Alice likes cats")),
        Arc::new(record("g1", "Bob likes dogs")),
        Arc::new(record("g2", "Alice likes fish")),
    ]);

    let results = store.search(&"g1".to_string(), "cats", 10);
    assert_eq!(results.len(), 1);
    assert_eq!(results[0].text, "Alice likes cats");

    let results = store.search(&"g2".to_string(), "likes", 10);
    assert_eq!(results.len(), 1);
    assert_eq!(results[0].text, "Alice likes fish");
}

#[test]
fn search_filters_by_group_id() {
    let mut store = InMemoryVectorStore::new();
    store.embed_and_upsert(&vec![Arc::new(record("g1", "hello")), Arc::new(record("g2", "hello"))]);
    let results = store.search(&"g1".to_string(), "hello", 10);
    assert_eq!(results.len(), 1);
    assert_eq!(results[0].group_id, "g1");
}

#[test]
fn empty_query_returns_all_group_records() {
    let mut store = InMemoryVectorStore::new();
    store.embed_and_upsert(&vec![Arc::new(record("g1", "alpha")), Arc::new(record("g1", "beta"))]);
    let results = store.search(&"g1".to_string(), "", 10);
    assert_eq!(results.len(), 2);
}

#[test]
fn respects_top_k() {
    let mut store = InMemoryVectorStore::new();
    store.embed_and_upsert(&vec![
        Arc::new(record("g1", "hello world")),
        Arc::new(record("g1", "hello again")),
    ]);
    let results = store.search(&"g1".to_string(), "hello", 1);
    assert_eq!(results.len(), 1);
}

#[test]
fn upsert_overwrites_same_id() {
    let mut store = InMemoryVectorStore::new();
    let mut r = record("g1", "old");
    store.embed_and_upsert(&vec![Arc::new(r.clone())]);
    r.text = "new".to_string();
    store.embed_and_upsert(&vec![Arc::new(r.clone())]);
    let results = store.search(&"g1".to_string(), "", 10);
    assert_eq!(results.len(), 1);
    assert_eq!(results[0].text, "new");
}

#[test]
fn search_with_score_ranks_exact_matches_highest() {
    let mut store = InMemoryVectorStore::new();
    store.embed_and_upsert(&vec![
        Arc::new(record("g1", "hello world")),
        Arc::new(record("g1", "goodbye")),
    ]);
    let scored = store.search_with_score(&"g1".to_string(), "hello world", 10);
    assert_eq!(scored.len(), 1);
    assert_eq!(value(scored[0].0), 1.0);
    assert_eq!(scored[0].1.text, "hello world");
}

#[test]
fn full_matches_come_before_partial_ones() {
    let mut store = InMemoryVectorStore::new();
    store.embed_and_upsert(&vec![
        Arc::new(record("g1", "HELLO there")),
        Arc::new(record("g1", "Hello WORLD again")),
        Arc::new(record("g1", "world")),
    ]);
    let scored = store.search_with_score(&"g1".to_string(), "hello world", 10);
    let got: Vec<(f32, &str)> = scored.iter().map(|(s, r)| (value(*s), r.text.as_str())).collect();
    assert_eq!(got, vec![(1.0, "Hello WORLD again"), (1.0, "world"), (0.5, "HELLO there")]);
    // Case is that of Unicode.
    store.embed_and_upsert(&vec![Arc::new(record("g3", "ÄPFEL"))]);
    assert_eq!(store.search(&"g3".to_string(), "äpfel", 1).len(), 1);
}

#[test]
fn vectors_are_paired_with_records() {
    let records = vec![Arc::new(record("g1", "a")), Arc::new(record("g1", "b"))];
    assert_eq!(texts_to_embed(&records), vec!["a".to_string(), "b".to_string()]);
    let vectors = vec![vec![single(1.0)], vec![single(2.0)], vec![single(3.0)]];
    let ps = points(&records, &vectors);
    assert_eq!(ps.len(), 2);
    assert_eq!(ps[1].id, records[1].id);
    assert_eq!(ps[1].vector, vec![single(2.0)]);
    assert_eq!(query_vector(&vectors).unwrap(), vec![single(1.0)]);
    assert_eq!(
        query_vector(&vec![]).unwrap_err(),
        NekoError::Llm("embedding returned empty vector".to_string())
    );
    let scored = vec![(single(0.9), Some(records[0].clone())), (single(0.8), None), (single(0.7), Some(records[1].clone()))];
    let good = readable(&scored);
    assert_eq!(good.len(), 2);
    assert_eq!(value(good[1].0), 0.7);
}

fn update(cypher: &str, params: &[(&str, Json)]) -> GraphUpdate {
    GraphUpdate {
        cypher: cypher.to_string(),
        params: params.iter().map(|(k, v)| (k.to_string(), v.clone())).collect(),
    }
}

fn text(s: &str) -> Json {
    Json::Text(s.to_string())
}

fn number(s: &str) -> Json {
    Json::parse(s).unwrap()
}

#[test]
fn records_updates() {
    let mut store = InMemoryGraphStore::new();
    store.apply_updates(vec![update("CREATE (n)", &[])], &calc, &narrow);
    assert_eq!(store.applied_updates().len(), 1);
    assert_eq!(store.applied_updates()[0].cypher, "CREATE (n)");
}

#[test]
fn aggregates_relationship_deltas() {
    let mut store = InMemoryGraphStore::new();
    let u1 = update(
        "MERGE (a)-[r:TEASE]->(b)",
        &[("from", text("u1")), ("to", text("u2")), ("delta", number("0.5"))],
    );
    let u2 = update(
        "MERGE (a)-[r:TEASE]->(b)",
        &[("from", text("u1")), ("to", text("u2")), ("delta", number("-0.2"))],
    );
    store.apply_updates(vec![u1, u2], &calc, &narrow);
    let delta = value(store.relationship_delta("u1", "u2", "TEASE").unwrap());
    assert!((delta - 0.3).abs() < 0.001);
}

#[test]
fn fallback_kind_for_plain_cypher() {
    let mut store = InMemoryGraphStore::new();
    let u = update(
        "MATCH (a),(b) ...",
        &[("from", text("u1")), ("to", text("u2")), ("delta", number("0.1"))],
    );
    store.apply_updates(vec![u], &calc, &narrow);
    let delta = value(store.relationship_delta("u1", "u2", "REL").unwrap());
    assert!((delta - 0.1).abs() < 0.001);
}

#[test]
fn updates_without_a_number_are_only_kept() {
    let mut store = InMemoryGraphStore::new();
    store.apply_updates(
        vec![update("x", &[("from", text("u1")), ("to", text("u2"))])],
        &calc,
        &narrow,
    );
    assert_eq!(store.relationship_delta("u1", "u2", "REL"), None);
    assert_eq!(store.relationship_summary(20, &show_signed), "");
}

#[test]
fn kinds_are_found_in_statements() {
    assert_eq!(extract_kind("MERGE (a)-[r:SOME_KIND]->(b)"), "SOME_KIND");
    assert_eq!(extract_kind("-[r:A]- -[r:B]-"), "A");
    assert_eq!(extract_kind("]-[r:"), "REL");
    assert_eq!(extract_kind(""), "REL");
    assert_eq!(extract_kind("-[r:]"), "");
}

#[test]
fn summary_has_the_strongest_first() {
    let mut store = InMemoryGraphStore::new();
    for (to, delta) in [("b", 0.1), ("c", -0.75), ("d", 0.5), ("e", 0.75)] {
        store.merge_relation("a", to, "K", single(delta), &calc);
    }
    assert_eq!(
        store.relationship_summary(3, &show_signed),
        "a -[K]-> c (delta -0.75)\na -[K]-> e (delta +0.75)\na -[K]-> d (delta +0.50)"
    );
    store.merge_relation("a", "b", "K", single(1.0), &calc);
    assert!(store.relationship_summary(20, &show_signed).starts_with("a -[K]-> b (delta +1.10)\n"));
    let rows = vec![RelationRow {
        from: "x".to_string(),
        kind: "K".to_string(),
        to: "y".to_string(),
        delta: "+1.00".to_string(),
    }];
    assert_eq!(summary_text(&rows), "x -[K]-> y (delta +1.00)");
}

fn read_updates(raw: &str) -> Result<Vec<GraphUpdate>, String> {
    let v: Value = serde_json::from_str(raw).map_err(|e| e.to_string())?;
    let mut out = vec![];
    for u in v.get("updates").and_then(|l| l.as_array()).cloned().unwrap_or_default() {
        let mut params = vec![];
        if let Some(Value::Object(m)) = u.get("params") {
            for (k, p) in m {
                params.push((k.clone(), Json::parse(&p.to_string())?));
            }
        }
        let cypher = u.get("cypher").and_then(|c| c.as_str()).ok_or("missing field `cypher`")?;
        out.push(GraphUpdate { cypher: cypher.to_string(), params });
    }
    Ok(out)
}

#[test]
fn parses_updates_json() {
    let raw = r#"{"updates":[{"cypher":"MERGE (a:User {id: $from})","params":{"from":"u1"}}]}"#;
    let updates = parse_solidify_updates(raw, &read_updates).unwrap();
    assert_eq!(updates.len(), 1);
    assert_eq!(updates[0].cypher, "MERGE (a:User {id: $from})");
    assert_eq!(updates[0].params, vec![("from".to_string(), text("u1"))]);
}

#[test]
fn parses_empty_updates() {
    let raw = r#"{"updates":[]}"#;
    let updates = parse_solidify_updates(raw, &read_updates).unwrap();
    assert!(updates.is_empty());
}

#[test]
fn unreadable_updates_are_an_error() {
    let err = parse_solidify_updates("nope", &read_updates).unwrap_err();
    assert!(err.message().starts_with("parse error: cannot parse solidify updates: "));
}

fn report(summary: &str) -> DetectiveReport {
    DetectiveReport {
        message_id: 0,
        trace_id: 0,
        group_id: String::new(),
        target_user: "67890".to_string(),
        summary: summary.to_string(),
        historical_facts: vec![],
        psychological_weaknesses: vec![],
        relationship_changes: vec![
            RelationshipChange {
                from: "67890".to_string(),
                to: "12345".to_string(),
                kind: RelationKind::Tease,
                delta: single(-0.1),
                evidence: vec!["开玩笑".to_string()],
            },
            RelationshipChange {
                from: "a".to_string(),
                to: "b".to_string(),
                kind: RelationKind::Other("x\"y".to_string()),
                delta: single(1.0),
                evidence: vec![],
            },
        ],
        recommended_tone: Tone::Neutral,
        confidence: single(0.9),
    }
}

fn answer(content: &str) -> Result<LlmResponse, NekoError> {
    Ok(LlmResponse {
        content: content.to_string(),
        usage: TokenUsage { prompt_tokens: 0, completion_tokens: 0, total_tokens: 0 },
        finish_reason: FinishReason::Stop,
    })
}

#[test]
fn solidify_applies_graph_updates_on_tick() {
    let mut graph = InMemoryGraphStore::new();
    let mut actor = SolidifyActor::new(SolidifyConfig {
        report_buffer_limit: 10,
        llm_temperature: single(0.7),
        llm_max_tokens: 256,
    });
    assert!(actor.take_reports().is_none());
    actor.take_report(report("测试报告"));
    let reports = actor.take_reports().unwrap();
    let req = actor.solidify_request(&reports, &show);
    assert_eq!(req.max_tokens, Some(256));
    let raw = r#"{"updates": [{
        "cypher": "MERGE (a:User {id: $from}) MERGE (b:User {id: $to}) MERGE (a)-[r:TEASE]->(b) SET r.delta = COALESCE(r.delta, 0) + $delta",
        "params": {"from": "67890", "to": "12345", "delta": -0.1}
    }]}"#;
    let updates = actor.on_solidify_answer(reports, answer(raw), &read_updates).unwrap();
    graph.apply_updates(updates, &calc, &narrow);

    let applied = graph.applied_updates();
    assert_eq!(applied.len(), 1);
    assert!(applied[0].cypher.contains("MERGE"));
    let from = applied[0].params.iter().find(|(k, _)| k == "from").map(|(_, v)| v.clone());
    assert_eq!(from, Some(text("67890")));
    assert_eq!(value(graph.relationship_delta("67890", "12345", "TEASE").unwrap()), -0.1);
}

#[test]
fn prompt_of_reports_is_exact() {
    let prompt = solidify_prompt(&vec![report("一"), report("二")], &show);
    assert!(prompt.starts_with("你是深夜固化中心。请将以下侦探报告 batch 转换为 Neo4j Cypher 更新语句。\n\n规则：\n"));
    let block = "目标用户：67890\n总结：一\n关系变化：\n- 67890 -> 12345 (Tease, delta -0.10)\n- a -> b (Other(\"x\\\"y\"), delta 1.00)";
    assert!(prompt.contains(&format!("侦探报告：\n{block}\n\n目标用户：67890\n总结：二\n")));
    assert!(prompt.contains("\"cypher\": \"MERGE (a:User {id: $from}) MERGE (b:User {id: $to}) MERGE (a)-[r:TEASE]->(b) SET r.delta = COALESCE(r.delta, 0) + $delta\",\n"));
    assert!(prompt.ends_with("\n}\n]\n}"));
    assert!(solidify_prompt(&vec![], &show).contains("侦探报告：\n（无报告）\n\n输出 JSON 格式"));
}

#[test]
fn oldest_report_makes_room() {
    let mut actor = SolidifyActor::new(SolidifyConfig { report_buffer_limit: 2, ..SolidifyConfig::default() });
    for s in ["1", "2", "3"] {
        actor.take_report(report(s));
    }
    let kept: Vec<String> = actor.take_reports().unwrap().into_iter().map(|r| r.summary).collect();
    assert_eq!(kept, vec!["2".to_string(), "3".to_string()]);
}

#[test]
fn failed_model_gives_reports_back() {
    let mut actor = SolidifyActor::new(SolidifyConfig { report_buffer_limit: 3, ..SolidifyConfig::default() });
    for s in ["1", "2", "3"] {
        actor.take_report(report(s));
    }
    let taken = actor.take_reports().unwrap();
    actor.take_report(report("4"));
    let failed = Err(NekoError::llm("down".to_string()));
    assert!(actor.on_solidify_answer(taken, failed, &read_updates).unwrap().is_empty());
    let kept: Vec<String> = actor.take_reports().unwrap().into_iter().map(|r| r.summary).collect();
    assert_eq!(kept, vec!["4".to_string(), "1".to_string(), "2".to_string()]);
    assert!(actor.on_solidify_answer(vec![report("5")], answer("nope"), &read_updates).is_err());
    assert!(actor.take_reports().is_none());
}

#[test]
fn solidify_tasks_follow_events() {
    assert!(matches!(
        solidify_task(Event::DetectiveReport(report("1"))),
        SolidifyTask::Collect(r) if r.summary == "1"
    ));
    assert!(matches!(solidify_task(Event::SolidifyTick), SolidifyTask::Tick));
    assert!(matches!(solidify_task(Event::DailyContext(String::new())), SolidifyTask::Nothing));
}

#[test]
fn failed_tick_is_repeated() {
    let mut actor = SolidifyActor::new(SolidifyConfig::default());
    assert!(matches!(actor.begin_tick(&show), TickStep::End));
    actor.take_report(report("1"));
    actor.take_report(report("2"));
    let TickStep::Ask(reports, request) = actor.begin_tick(&show) else {
        panic!("no request");
    };
    let failed = Err(NekoError::llm("down".to_string()));
    assert!(matches!(actor.on_answer(reports, failed, &read_updates), TickStep::End));
    let TickStep::Ask(reports, again) = actor.begin_tick(&show) else {
        panic!("no request");
    };
    assert_eq!(reports.len(), 2);
    assert_eq!(again.messages[0].content, request.messages[0].content);
}

#[test]
fn tick_applies_then_tells() {
    let mut actor = SolidifyActor::new(SolidifyConfig::default());
    let raw = r#"{"updates": [{"cypher": "c", "params": {}}]}"#;
    let step = actor.on_answer(vec![report("1")], answer(raw), &read_updates);
    assert!(matches!(step, TickStep::Apply(u) if u.len() == 1 && u[0].cypher == "c"));
    assert!(matches!(after_apply(Ok(())), TickStep::Summarise(20)));
    assert!(matches!(
        after_summary(Ok(" a ".to_string())),
        TickStep::Send(Event::DailyContext(t)) if t == daily_context("a")
    ));
    assert!(matches!(actor.begin_tick(&show), TickStep::End));
}

#[test]
fn tick_ends_early() {
    let mut actor = SolidifyActor::new(SolidifyConfig::default());
    let none = actor.on_answer(vec![report("1")], answer(r#"{"updates": []}"#), &read_updates);
    assert!(matches!(none, TickStep::End));
    let bad = actor.on_answer(vec![report("1")], answer("nope"), &read_updates);
    assert!(matches!(bad, TickStep::Fail(e) if e.message().starts_with("parse error: ")));
    let down = || NekoError::transport("down".to_string());
    assert!(matches!(after_apply(Err(down())), TickStep::Fail(e) if e.message() == down().message()));
    assert!(matches!(after_summary(Err(down())), TickStep::Fail(e) if e.message() == down().message()));
    assert!(matches!(actor.begin_tick(&show), TickStep::End));
}

#[test]
fn council_is_told_of_the_graph() {
    assert_eq!(daily_context(" a "), "以下为昨夜固化的长期关系记忆（按强度排序）：\na");
    assert_eq!(daily_context(" \n"), "以下为昨夜固化的长期关系记忆（按强度排序）：\n（暂无关系记录）");
    assert_eq!(value(SolidifyConfig::default().llm_temperature), 0.7);
}
