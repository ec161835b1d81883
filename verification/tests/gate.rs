use neko_router::clock::Timestamp;
use neko_router::error::NekoError;
use neko_router::gate::{
    classify_prompt, cozy_prompt, heuristic_from_name, BotIdentity, DefaultHeuristic,
    EscalateAllHeuristic, GateActor, GateAnswerJson, GateClassification, GateConfig,
    GateHeuristic, GateTask, LlmGateClassifier,
};
use neko_router::json::Json;
use neko_router::single::Single;
use neko_router::types::{
    AffectiveState, ChatMessage, DropReason, EngagementType, Event, FinishReason, GateDecision,
    LlmResponse, RuntimeState, TokenUsage,
};

fn identity() -> BotIdentity {
    BotIdentity {
        qq_id: 123456789,
        name: "NekoRouter".to_string(),
        aliases: vec!["猫娘".to_string(), "机器人".to_string()],
    }
}

fn msg(content: &str) -> ChatMessage {
    ChatMessage {
        id: uuid::Uuid::new_v4().as_u128(),
        trace_id: uuid::Uuid::new_v4().as_u128(),
        group_id: "g1".to_string(),
        sender: "u1".to_string(),
        nickname: "Alice".to_string(),
        content: content.to_string(),
        timestamp: Timestamp::now(),
        reply_to: None,
        raw_payload: Json::Null,
    }
}

fn at_msg(qq: u64) -> ChatMessage {
    let mut m = msg("hello");
    m.raw_payload = Json::parse(&format!(
        r#"{{"message": [{{"type": "at", "data": {{"qq": "{qq}"}}}}]}}"#
    ))
    .unwrap();
    m
}

fn config() -> GateConfig {
    GateConfig {
        max_message_length: 800,
        max_ambient_words: 10,
        concurrency_limit: 8,
        heuristic: "default".to_string(),
    }
}

#[test]
fn default_drops_commands_and_urls() {
    let h = DefaultHeuristic;
    let id = identity();
    let cfg = config();
    assert_eq!(
        h.classify(&msg("/help"), &cfg, &id),
        GateClassification::Drop(DropReason::Other("command".to_string()))
    );
    assert_eq!(
        h.classify(&msg("see https://example.com"), &cfg, &id),
        GateClassification::Drop(DropReason::Spam)
    );
}

#[test]
fn default_drops_long_messages() {
    let h = DefaultHeuristic;
    let id = identity();
    let mut cfg = config();
    cfg.max_message_length = 10;
    assert_eq!(
        h.classify(&msg("this is a long message"), &cfg, &id),
        GateClassification::Drop(DropReason::TooLong)
    );
}

#[test]
fn default_detects_at_mention_as_personal() {
    let h = DefaultHeuristic;
    let id = identity();
    let cfg = config();
    assert_eq!(
        h.classify(&at_msg(123456789), &cfg, &id),
        GateClassification::Escalate(EngagementType::PersonalReply)
    );
    assert_eq!(
        h.classify(&at_msg(5), &cfg, &id),
        GateClassification::Escalate(EngagementType::AmbientJoin)
    );
}

#[test]
fn default_detects_reply_to_bot_as_personal() {
    let h = DefaultHeuristic;
    let id = identity();
    let cfg = config();
    let mut m = msg("你说得对");
    m.reply_to = Some(uuid::Uuid::new_v4().as_u128());
    assert_eq!(
        h.classify(&m, &cfg, &id),
        GateClassification::Escalate(EngagementType::PersonalReply)
    );
}

#[test]
fn default_detects_name_mention_as_personal() {
    let h = DefaultHeuristic;
    let id = identity();
    let cfg = config();
    assert_eq!(
        h.classify(&msg("NekoRouter 你怎么看"), &cfg, &id),
        GateClassification::Escalate(EngagementType::PersonalReply)
    );
    assert_eq!(
        h.classify(&msg("猫娘出来"), &cfg, &id),
        GateClassification::Escalate(EngagementType::PersonalReply)
    );
}

#[test]
fn default_classifies_short_chitchat_as_ambient() {
    let h = DefaultHeuristic;
    let id = identity();
    let cfg = config();
    assert_eq!(
        h.classify(&msg("你好"), &cfg, &id),
        GateClassification::Escalate(EngagementType::AmbientJoin)
    );
}

#[test]
fn escalate_all_always_personal() {
    let h = EscalateAllHeuristic;
    let id = identity();
    let cfg = config();
    assert_eq!(
        h.classify(&msg("/help"), &cfg, &id),
        GateClassification::Escalate(EngagementType::PersonalReply)
    );
}

#[test]
fn long_talk_is_taken_as_personal() {
    let cfg = config();
    let id = identity();
    let thirty = vec!["w"; 30].join(" ");
    let more = vec!["w"; 31].join(" ");
    assert_eq!(
        DefaultHeuristic.classify(&msg(&thirty), &cfg, &id),
        GateClassification::Escalate(EngagementType::AmbientJoin)
    );
    assert_eq!(
        DefaultHeuristic.classify(&msg(&more), &cfg, &id),
        GateClassification::Escalate(EngagementType::PersonalReply)
    );
    let mut wide = config();
    wide.max_ambient_words = usize::MAX;
    assert_eq!(
        DefaultHeuristic.classify(&msg(&more), &wide, &id),
        GateClassification::Escalate(EngagementType::AmbientJoin)
    );
}

#[test]
fn empty_names_address_nobody() {
    let id = BotIdentity { qq_id: 1, name: String::new(), aliases: vec![String::new()] };
    assert!(!id.is_addressed_to_me(&msg("hello")));
    assert!(identity().is_addressed_to_me(&msg("机器人?")));
}

#[test]
fn names_choose_heuristics() {
    let m = msg("/help");
    let all = heuristic_from_name("escalate_all");
    let other = heuristic_from_name("anything");
    assert_eq!(
        all.classify(&m, &config(), &identity()),
        GateClassification::Escalate(EngagementType::PersonalReply)
    );
    assert!(matches!(other.classify(&m, &config(), &identity()), GateClassification::Drop(_)));
}

#[test]
fn prompts_hold_the_message() {
    assert_eq!(
        cozy_prompt("在吗", 10),
        "你是一只高冷的猫娘，正在 QQ 群里潜水。群友说：\"在吗\"\n\n请用不超过 10 个字回复，语气简短、傲娇、可爱。只输出回复内容，不要解释、不要加引号。"
    );
    assert_eq!(
        classify_prompt("在吗"),
        "判断下面的 QQ 群消息属于哪一类。只输出一个单词：COZY（普通闲聊，适合简短回复）、DROP（垃圾/广告/无意义）、ESCALATE（冲突/烂梗/需要上下文）。\n\n消息：\"在吗\""
    );
}

fn sent(task: GateTask) -> Vec<Event> {
    match task {
        GateTask::Send(events) => events,
        other => panic!("unexpected {other:?}"),
    }
}

#[test]
fn gate_drops_too_long_message() {
    let mut cfg = config();
    cfg.max_message_length = 100;
    let mut layer = GateActor::new(cfg, identity());
    let long_content = "a".repeat(101);
    let events = sent(layer.handle_event(Event::IncomingMessage(msg(&long_content))));
    // No reply is generated for a dropped message.
    assert_eq!(events.len(), 1);
    assert!(matches!(&events[0], Event::GateDecision(GateDecision::Drop(_))));
}

#[test]
fn gate_escalate_all_heuristic_sends_escalation() {
    let mut cfg = config();
    cfg.heuristic = "escalate_all".to_string();
    let mut layer = GateActor::new(cfg, identity());
    let events = sent(layer.handle_event(Event::IncomingMessage(msg("hello"))));
    assert_eq!(events.len(), 2);
    assert!(matches!(&events[0], Event::GateDecision(GateDecision::Escalate(..))));
    assert!(matches!(&events[1], Event::Escalation(..)));
}

#[test]
fn known_state_goes_with_the_escalation() {
    let runtime = RuntimeState {
        started_at: Timestamp { secs: 0, nanos: 0 },
        messages_received: 0,
        replies_sent: 0,
        connected: false,
    };
    let mut layer = GateActor::new_with_state(GateConfig::default(), identity(), Some(runtime));
    let state = AffectiveState { energy: Single { bits: 7 }, ..AffectiveState::default() };
    let updated = Event::AffectiveUpdated("g1".to_string(), "u1".to_string(), state);
    assert!(sent(layer.handle_event(updated)).is_empty());
    assert!(sent(layer.handle_event(Event::SolidifyTick)).is_empty());
    assert_eq!(layer.messages_received(), Some(0));
    let events = sent(layer.handle_event(Event::IncomingMessage(msg("你好"))));
    assert_eq!(layer.messages_received(), Some(1));
    match &events[1] {
        Event::Escalation(_, m, s, EngagementType::AmbientJoin) => {
            assert_eq!(m.content, "你好");
            assert_eq!(*s, state);
        }
        other => panic!("unexpected {other:?}"),
    }
    assert_eq!(GateActor::new(config(), identity()).messages_received(), None);
}

fn show(x: Single) -> String {
    format!("{:.2}", f32::from_bits(x.bits))
}

fn answer(content: &str) -> Result<LlmResponse, NekoError> {
    Ok(LlmResponse {
        content: content.to_string(),
        usage: TokenUsage { prompt_tokens: 0, completion_tokens: 0, total_tokens: 0 },
        finish_reason: FinishReason::Stop,
    })
}

fn read(text: &str) -> Result<GateAnswerJson, String> {
    let v: serde_json::Value = serde_json::from_str(text).map_err(|e| e.to_string())?;
    let field = |key: &str| v.get(key).and_then(|t| t.as_str()).unwrap_or("").to_string();
    Ok(GateAnswerJson {
        action: field("action"),
        engagement_type: field("engagement_type"),
        confidence: Single { bits: 0 },
        reasoning: field("reasoning"),
    })
}

fn model_layer() -> GateActor {
    GateActor::new(GateConfig { heuristic: "llm".to_string(), ..GateConfig::default() }, identity())
}

#[test]
fn model_is_asked_unless_a_rule_drops() {
    let mut layer = model_layer();
    let state = AffectiveState { energy: Single { bits: 7 }, ..AffectiveState::default() };
    sent(layer.handle_event(Event::AffectiveUpdated("g1".to_string(), "u1".to_string(), state)));
    let m = msg("今天天气不错");
    assert!(matches!(
        layer.handle_event(Event::IncomingMessage(m.clone())),
        GateTask::Ask(asked, s) if asked == m && s == state
    ));
    for text in ["/help", "!x", "see https://example.com", "a".repeat(801).as_str()] {
        let events = sent(layer.handle_event(Event::IncomingMessage(msg(text))));
        assert_eq!(events.len(), 1);
        assert!(matches!(&events[0], Event::GateDecision(GateDecision::Drop(_))));
    }
}

#[test]
fn model_is_told_the_context() {
    let classifier = LlmGateClassifier {
        context_messages: 10,
        llm_temperature: Single { bits: 5 },
        llm_max_tokens: 256,
    };
    let m = msg("在吗");
    let now = Timestamp { secs: 5, nanos: 6 };
    let q = classifier.context_query_at(&m, now);
    assert_eq!((q.group_id.as_str(), q.user_id, q.before, q.limit), ("g1", None, now, 10));
    assert_eq!(classifier.context_query(&m).limit, 10);
    let layer = model_layer();
    let state = AffectiveState {
        energy: Single { bits: 0.5f32.to_bits() },
        favorability: Single { bits: 0.25f32.to_bits() },
        ..AffectiveState::default()
    };
    let ask = |lookup| classifier.request(&m, state, lookup, layer.bot(), &show);
    let request = ask(Ok(vec![msg("a"), msg("b")]));
    let prompt = request.messages[0].content.as_str();
    assert!(prompt.contains(
        "机器人名字：NekoRouter\n精力值：0.50\n好感度：0.25\n\n最近上下文：\nAlice: a\nAlice: b\n\n当前消息：\nAlice: 在吗\n\n只输出 JSON"
    ), "{prompt}");
    assert_eq!(request.max_tokens, Some(256));
    let blind = ask(Err(NekoError::llm("down".to_string())));
    assert!(blind.messages[0].content.contains("最近上下文：\n（无历史上下文）\n\n"));
}

#[test]
fn model_decides_and_the_heuristic_stands_in() {
    let layer = model_layer();
    let state = AffectiveState::default();
    let decide = |m: &ChatMessage, a| layer.on_model_answer(m, state, a, &read);
    let m = msg("今天天气不错");
    let dropped = decide(&m, answer(r#"{"action": "drop", "reasoning": "无关"}"#));
    assert_eq!(dropped.len(), 1);
    assert!(matches!(
        &dropped[0],
        Event::GateDecision(GateDecision::Drop(DropReason::Other(r))) if r == "无关"
    ));
    let personal =
        decide(&m, answer("```json\n{\"action\": \"escalate\", \"engagement_type\": \"personal_reply\"}\n```"));
    assert!(matches!(&personal[1], Event::Escalation(_, _, _, EngagementType::PersonalReply)));
    let named = msg("猫娘你好");
    let ambient =
        decide(&named, answer(r#"{"action": "escalate", "engagement_type": "ambient_join"}"#));
    assert!(matches!(&ambient[1], Event::Escalation(_, _, _, EngagementType::AmbientJoin)));
    // Without an answer that can be understood, the default heuristic decides.
    for a in [
        Err(NekoError::llm("down".to_string())),
        answer("nope"),
        answer(r#"{"action": "maybe"}"#),
        answer(r#"{"action": "escalate", "engagement_type": "x"}"#),
    ] {
        let events = decide(&named, a);
        assert!(matches!(&events[1], Event::Escalation(_, _, _, EngagementType::PersonalReply)));
    }
}
