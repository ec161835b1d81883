use neko_router::clock::Timestamp;
use neko_router::council::{
    compose_detective_reply, council_prompt, council_task, parse_council_decision, CouncilActor,
    CouncilConfig, CouncilDecisionJson, CouncilTask,
};
use neko_router::error::NekoError;
use neko_router::json::Json;
use neko_router::single::Single;
use neko_router::types::{
    AffectiveState, ChatMessage, CouncilAction, CouncilInput, DetectiveReport, EngagementType,
    EscalationReason, Event, FinishReason, LlmResponse, LlmRole, ReplyOut, ResponseFormat,
    TokenUsage, Tone,
};
use serde_json::Value;

fn single(x: f32) -> Single {
    Single { bits: x.to_bits() }
}

fn show(x: Single) -> String {
    format!("{:.2}", f32::from_bits(x.bits))
}

fn text_or_empty(v: &Value, key: &str) -> Result<String, String> {
    match v.get(key) {
        None => Ok(String::new()),
        Some(Value::String(s)) => Ok(s.clone()),
        Some(_) => Err(format!("{key}: expected a string")),
    }
}

fn read(text: &str) -> Result<CouncilDecisionJson, String> {
    let v: Value = serde_json::from_str(text).map_err(|e| e.to_string())?;
    let action = match v.get("action") {
        Some(Value::String(s)) => s.clone(),
        _ => return Err("missing field `action`".to_string()),
    };
    Ok(CouncilDecisionJson {
        action,
        reasoning: text_or_empty(&v, "reasoning")?,
        draft_reply: text_or_empty(&v, "draft_reply")?,
    })
}

fn answer(content: &str) -> Result<LlmResponse, NekoError> {
    Ok(LlmResponse {
        content: content.to_string(),
        usage: TokenUsage { prompt_tokens: 0, completion_tokens: 0, total_tokens: 0 },
        finish_reason: FinishReason::Stop,
    })
}

fn make_message(content: &str) -> ChatMessage {
    ChatMessage {
        id: uuid::Uuid::new_v4().as_u128(),
        trace_id: uuid::Uuid::new_v4().as_u128(),
        group_id: "12345".to_string(),
        sender: "67890".to_string(),
        nickname: "Alice".to_string(),
        content: content.to_string(),
        timestamp: Timestamp::now(),
        reply_to: None,
        raw_payload: Json::Null,
    }
}

fn report(message_id: u128, summary: &str, confidence: f32, tone: Tone) -> DetectiveReport {
    DetectiveReport {
        message_id,
        trace_id: 5,
        group_id: "12345".to_string(),
        target_user: "67890".to_string(),
        summary: summary.to_string(),
        historical_facts: vec![],
        psychological_weaknesses: vec![],
        relationship_changes: vec![],
        recommended_tone: tone,
        confidence: single(confidence),
    }
}

const DETECTIVE: &str = r#"{"action":"detective","reasoning":"需要更多上下文","draft_reply":""}"#;

#[test]
fn parses_reply_action() {
    let raw = r#"{"action":"reply","reasoning":"用户打招呼","draft_reply":"你好呀~"}"#;
    let decision = parse_council_decision(raw, &read).unwrap();
    assert_eq!(decision.action, CouncilAction::ReplyDirectly);
    assert_eq!(decision.reasoning, "用户打招呼");
    assert_eq!(decision.draft_reply, Some("你好呀~".to_string()));
}

#[test]
fn parses_detective_action() {
    let raw = r#"{"action":"detective","reasoning":"需要上下文","draft_reply":""}"#;
    let decision = parse_council_decision(raw, &read).unwrap();
    assert_eq!(decision.action, CouncilAction::LaunchDetective);
    assert!(decision.draft_reply.is_none());
}

#[test]
fn parses_ignore_action() {
    let raw = r#"{"action":"ignore","reasoning":"不相关","draft_reply":""}"#;
    let decision = parse_council_decision(raw, &read).unwrap();
    assert_eq!(decision.action, CouncilAction::Ignore);
}

#[test]
fn unknown_action_returns_error() {
    let raw = r#"{"action":"dance","reasoning":"???","draft_reply":""}"#;
    let err = parse_council_decision(raw, &read).unwrap_err();
    assert!(err.message().contains("unknown council action"));
    assert_eq!(err.message(), "parse error: unknown council action: dance");
}

#[test]
fn empty_draft_reply_becomes_none() {
    let raw = r#"{"action":"reply","reasoning":"","draft_reply":""}"#;
    let decision = parse_council_decision(raw, &read).unwrap();
    assert_eq!(decision.action, CouncilAction::ReplyDirectly);
    assert_eq!(decision.draft_reply, None);
}

#[test]
fn strips_markdown_json_fence() {
    let raw =
        "```json\n{\"action\":\"ignore\",\"reasoning\":\" fenced \",\"draft_reply\":\"\"}\n```";
    let decision = parse_council_decision(raw, &read).unwrap();
    assert_eq!(decision.action, CouncilAction::Ignore);
    assert_eq!(decision.reasoning, " fenced ");
}

#[test]
fn malformed_json_returns_error() {
    let raw = "not json";
    let err = parse_council_decision(raw, &read).unwrap_err();
    assert!(matches!(err, NekoError::Parse(_)));
}

fn input_with_context(context: Vec<ChatMessage>) -> CouncilInput {
    CouncilInput {
        message: make_message("在吗"),
        state: AffectiveState {
            energy: single(0.75),
            favorability: single(0.33),
            reply_count: 0,
            last_updated: None,
        },
        context,
        daily_context: String::new(),
        engagement_type: EngagementType::PersonalReply,
    }
}

#[test]
fn prompt_contains_user_and_message() {
    let input = input_with_context(vec![]);
    let prompt = council_prompt(&input, &input.context, &show);
    assert!(prompt.contains("Alice"));
    assert!(prompt.contains("在吗"));
    assert!(prompt.contains("精力值：0.75"));
    assert!(prompt.contains("好感度：0.33"));
}

#[test]
fn prompt_handles_empty_context() {
    let input = input_with_context(vec![]);
    let prompt = council_prompt(&input, &input.context, &show);
    assert!(prompt.contains("（无历史上下文）"));
}

#[test]
fn prompt_lists_context_messages() {
    let mut second = make_message("");
    second.content = "second".to_string();
    second.nickname = "Bob".to_string();
    let ctx = vec![make_message(" earlier "), second];
    let input = input_with_context(ctx.clone());
    let prompt = council_prompt(&input, &input.context, &show);
    assert!(prompt.contains("Alice:  earlier "));
    assert!(prompt.contains("Bob: second"));
    assert!(!prompt.contains("（无历史上下文）"));
}

#[test]
fn prompt_contains_required_actions() {
    let input = input_with_context(vec![]);
    let prompt = council_prompt(&input, &input.context, &show);
    assert!(prompt.contains("\"action\": \"reply\" | \"detective\" | \"ignore\""));
}

#[test]
fn prompt_is_exact() {
    let mut input = input_with_context(vec![]);
    input.daily_context = " A 与 B 亲密 ".to_string();
    let prompt = council_prompt(&input, &vec![], &show);
    let want = "你是一座赛博猫娘心智议会中的首席路由官。现在需要决定如何回复 QQ 群里的这条消息。\n\n目标用户：Alice\n当前消息：\"在吗\"\n精力值：0.75（越高越活跃）\n好感度：0.33（越高越亲近）\n\n当前长期关系记忆：\nA 与 B 亲密\n\n近期历史上下文：\n（无历史上下文）\n\n议会中有三个角色在辩论：\n1. 【猫系本能】：凭直觉、情绪、猫娘本能反应。\n2. 【社交伪装】：考虑群聊氛围、社交礼仪、避免冲突。\n3. 【冷酷理智】：理性分析风险、判断是否需要更多信息。\n\n请综合三方的意见，由首席路由官输出最终决策。只输出 JSON，不要解释。JSON 格式如下：\n{\n\"action\": \"reply\" | \"detective\" | \"ignore\",\n\"reasoning\": \"一句话决策理由\",\n\"draft_reply\": \"如果 action 是 reply，填写回复内容；否则为空字符串\"\n}\n\n注意：回复内容不要超过 50 字。";
    assert_eq!(prompt, want);
}

#[test]
fn reply_directly_emits_decision_and_reply() {
    let mut actor = CouncilActor::new(CouncilConfig::default());
    let msg = make_message("在吗");
    let events = actor
        .on_council_answer(
            &msg,
            AffectiveState::default(),
            answer(r#"{"action":"reply","reasoning":"打招呼","draft_reply":"你好呀~"}"#),
            0,
            &read,
        )
        .unwrap();
    assert_eq!(events.len(), 2);
    match &events[0] {
        Event::CouncilDecision(decision) => {
            assert_eq!(decision.action, CouncilAction::ReplyDirectly);
        }
        other => panic!("expected CouncilDecision, got {other:?}"),
    }
    match &events[1] {
        Event::ReplyOut(ReplyOut { content, layer, reply_to, trace_id, .. }) => {
            assert_eq!(content, "你好呀~");
            assert_eq!(layer, "council");
            assert_eq!(*reply_to, msg.id);
            assert_eq!(*trace_id, msg.trace_id);
        }
        other => panic!("expected ReplyOut, got {other:?}"),
    }
}

#[test]
fn reply_without_draft_is_an_ellipsis() {
    let mut actor = CouncilActor::new(CouncilConfig::default());
    let events = actor
        .on_council_answer(
            &make_message("?"),
            AffectiveState::default(),
            answer(r#"{"action":"reply"}"#),
            0,
            &read,
        )
        .unwrap();
    assert!(matches!(&events[1], Event::ReplyOut(r) if r.content == "……"));
}

#[test]
fn launch_detective_emits_decision_and_request() {
    let mut actor = CouncilActor::new(CouncilConfig::default());
    let msg = make_message("你怎么看");
    let group_id = msg.group_id.clone();
    let events = actor
        .on_council_answer(&msg, AffectiveState::default(), answer(DETECTIVE), 0, &read)
        .unwrap();
    assert!(matches!(&events[0], Event::CouncilDecision(_)));
    match &events[1] {
        Event::DetectiveRequest(input) => assert_eq!(input.message.group_id, group_id),
        other => panic!("expected DetectiveRequest, got {other:?}"),
    }
    assert_eq!(actor.pending_detective_count(), 1);
}

#[test]
fn ignore_action_emits_only_decision() {
    let mut actor = CouncilActor::new(CouncilConfig::default());
    let events = actor
        .on_council_answer(
            &make_message("广告"),
            AffectiveState::default(),
            answer(r#"{"action":"ignore","reasoning":"不相关","draft_reply":""}"#),
            0,
            &read,
        )
        .unwrap();
    assert_eq!(events.len(), 1);
    assert!(matches!(&events[0], Event::CouncilDecision(_)));
}

#[test]
fn llm_error_is_graceful() {
    let mut actor = CouncilActor::new(CouncilConfig::default());
    let msg = make_message("??");
    // An answer that is no decision is an error that the caller logs; nothing
    // is sent.
    assert!(actor
        .on_council_answer(&msg, AffectiveState::default(), answer("not json"), 0, &read)
        .is_err());
    let failed = Err(NekoError::llm("down".to_string()));
    assert!(actor
        .on_council_answer(&msg, AffectiveState::default(), failed, 0, &read)
        .unwrap()
        .is_empty());
    assert_eq!(actor.pending_detective_count(), 0);
}

#[test]
fn detective_report_closes_loop_with_confident_reply() {
    let mut actor = CouncilActor::new(CouncilConfig::default());
    let msg = make_message("你怎么看");
    let message_id = msg.id;
    let events = actor
        .on_council_answer(&msg, AffectiveState::default(), answer(DETECTIVE), 0, &read)
        .unwrap();
    assert!(matches!(&events[0], Event::CouncilDecision(_)));
    assert!(matches!(&events[1], Event::DetectiveRequest(i) if i.message.id == message_id));

    let found = report(message_id, "用户喜欢直接表达。", 0.8, Tone::Playful);
    let reply = actor.handle_report(&found).unwrap();
    assert_eq!(reply.reply_to, message_id);
    assert_eq!(reply.layer, "council");
    assert_eq!(reply.content, "俏皮地 用户喜欢直接表达。");
    assert_eq!(reply.trace_id, 5);
    // A second report on the same message leads to nothing.
    assert!(actor.handle_report(&found).is_none());
}

#[test]
fn low_confidence_report_does_not_reply() {
    let mut actor = CouncilActor::new(CouncilConfig::default());
    let msg = make_message("?");
    actor
        .on_council_answer(&msg, AffectiveState::default(), answer(DETECTIVE), 0, &read)
        .unwrap();
    assert!(actor.handle_report(&report(msg.id, "不确定。", 0.2, Tone::Neutral)).is_none());
    assert_eq!(actor.pending_detective_count(), 0);
}

#[test]
fn stale_detective_escalations_are_swept() {
    let ms: u128 = 1_000_000;
    let mut actor = CouncilActor::new(CouncilConfig {
        detective_timeout: 50 * ms,
        ..CouncilConfig::default()
    });
    let msg = make_message("你怎么看");
    actor
        .on_council_answer(&msg, AffectiveState::default(), answer(DETECTIVE), 0, &read)
        .unwrap();
    actor.sweep_expired(49 * ms);
    assert_eq!(actor.pending_detective_count(), 1);
    // Well past the timeout the sweep removes the escalation.
    actor.sweep_expired(150 * ms);
    assert_eq!(actor.pending_detective_count(), 0);
    // A late report for the swept escalation must NOT produce a reply.
    let late = report(msg.id, "用户喜欢直接表达。", 0.9, Tone::Warm);
    assert!(actor.handle_report(&late).is_none());
}

#[test]
fn daily_context_reaches_council_prompt() {
    let mut actor = CouncilActor::new(CouncilConfig::default());
    actor.store_daily_context("用户 A 与 用户 B 关系亲密。");
    let msg = make_message("在吗");
    let req = actor.council_request(
        &msg,
        AffectiveState::default(),
        Ok(vec![]),
        EngagementType::PersonalReply,
        &show,
    );
    assert!(req.messages[0].content.contains("用户 A 与 用户 B 关系亲密。"));
    // The escalation still resolves to a council decision.
    let events = actor
        .on_council_answer(
            &msg,
            AffectiveState::default(),
            answer(r#"{"action":"ignore","reasoning":"无","draft_reply":""}"#),
            0,
            &read,
        )
        .unwrap();
    assert!(matches!(&events[0], Event::CouncilDecision(_)));
    actor.store_daily_context("  \n ");
    let req = actor.council_request(
        &msg,
        AffectiveState::default(),
        Ok(vec![]),
        EngagementType::PersonalReply,
        &show,
    );
    assert!(!req.messages[0].content.contains("当前长期关系记忆"));
}

#[test]
fn request_follows_the_settings() {
    let actor = CouncilActor::new(CouncilConfig::default());
    let msg = make_message("在吗");
    let req = actor.council_request(
        &msg,
        AffectiveState::default(),
        Ok(vec![make_message("earlier")]),
        EngagementType::AmbientJoin,
        &show,
    );
    assert_eq!(req.messages.len(), 1);
    assert_eq!(req.messages[0].role, LlmRole::User);
    assert!(req.messages[0].content.contains("Alice: earlier"));
    assert_eq!(f32::from_bits(req.temperature.bits), 0.9);
    assert_eq!(req.max_tokens, Some(512));
    assert_eq!(req.response_format, Some(ResponseFormat::JsonObject));
    let q = actor.context_query(&msg, EngagementType::PersonalReply);
    assert_eq!(q.user_id, Some("67890".to_string()));
    assert_eq!(q.limit, 10);
    assert_eq!(q.group_id, "12345");
    assert_eq!(actor.context_query(&msg, EngagementType::AmbientJoin).user_id, None);
    let now = Timestamp { secs: 5, nanos: 6 };
    assert_eq!(actor.context_query_at(&msg, EngagementType::AmbientJoin, now).before, now);
    assert!(req.messages[0].content.contains("（越高越亲近）\n\n参与方式：自然插话，回复要简短、俏皮。\n\n近期历史上下文：\n"));
    let addressed = actor.council_request(
        &msg,
        AffectiveState::default(),
        Ok(vec![]),
        EngagementType::PersonalReply,
        &show,
    );
    let failed = Err(NekoError::llm("down".to_string()));
    let alone = actor.council_request(&msg, AffectiveState::default(), failed, EngagementType::PersonalReply, &show);
    assert_eq!(alone.messages[0].content, addressed.messages[0].content);
    assert!(alone.messages[0].content.contains("（无历史上下文）"));
    assert!(addressed.messages[0].content.contains("（越高越亲近）\n\n近期历史上下文：\n"));
}

#[test]
fn council_replies_directly_when_decision_is_reply() {
    let mut actor = CouncilActor::new(CouncilConfig {
        context_limit: 5,
        llm_temperature: single(0.9),
        llm_max_tokens: 128,
        ..CouncilConfig::default()
    });
    let events = actor
        .on_council_answer(
            &make_message("在吗"),
            AffectiveState::default(),
            answer(r#"{"action":"reply","reasoning":"用户只是打招呼，直接回复即可。","draft_reply":"你好呀~"}"#),
            0,
            &read,
        )
        .unwrap();
    assert!(matches!(&events[0], Event::CouncilDecision(_)));
    match &events[1] {
        Event::ReplyOut(ReplyOut { content, layer, .. }) => {
            assert_eq!(content, "你好呀~");
            assert_eq!(layer, "council");
        }
        other => panic!("expected ReplyOut, got {other:?}"),
    }
}

#[test]
fn council_launches_detective_when_decision_is_detective() {
    let mut actor = CouncilActor::new(CouncilConfig {
        context_limit: 5,
        llm_temperature: single(0.9),
        llm_max_tokens: 128,
        ..CouncilConfig::default()
    });
    let events = actor
        .on_council_answer(
            &make_message("你怎么看我？"),
            AffectiveState::default(),
            answer(r#"{"action":"detective","reasoning":"需要更多上下文。","draft_reply":""}"#),
            0,
            &read,
        )
        .unwrap();
    assert!(matches!(&events[0], Event::CouncilDecision(_)));
    assert!(matches!(&events[1], Event::DetectiveRequest(_)));
}

#[test]
fn tones_have_their_words() {
    let cases = [
        (Tone::Warm, "温柔地 s"),
        (Tone::Cold, "冷淡地 s"),
        (Tone::Playful, "俏皮地 s"),
        (Tone::Sarcastic, "带讽刺地 s"),
        (Tone::Cautious, "谨慎地 s"),
        (Tone::Neutral, "s"),
    ];
    for (tone, want) in cases {
        assert_eq!(compose_detective_reply(&report(1, "s", 0.5, tone)), Some(want.to_string()));
    }
    assert_eq!(compose_detective_reply(&report(1, " \n", 0.9, Tone::Warm)), None);
    assert_eq!(compose_detective_reply(&report(1, "s", 0.49, Tone::Warm)), None);
}

#[test]
fn sweeps_come_every_half_minute_at_most() {
    assert_eq!(CouncilConfig::default().sweep_every(), 30_000_000_000);
    let quick = CouncilConfig { detective_timeout: 7, ..CouncilConfig::default() };
    assert_eq!(quick.sweep_every(), 7);
}

#[test]
fn tasks_follow_events() {
    let msg = make_message("x");
    let e = Event::Escalation(
        EscalationReason::NeedsContext,
        msg.clone(),
        AffectiveState::default(),
        EngagementType::AmbientJoin,
    );
    assert!(matches!(council_task(e), CouncilTask::Deliberate(m, _, EngagementType::AmbientJoin) if m == msg));
    assert!(matches!(
        council_task(Event::DetectiveReport(report(1, "s", 0.5, Tone::Warm))),
        CouncilTask::Review(_)
    ));
    assert!(matches!(council_task(Event::DailyContext("d".to_string())), CouncilTask::Remember(d) if d == "d"));
    assert!(matches!(council_task(Event::SolidifyTick), CouncilTask::Nothing));
}
