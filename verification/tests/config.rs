use neko_router::config::{
    expand_secret, BotConfig, BurstSection, EmbeddingConfig, GateSection, LlmConfig,
    LlmProviderConfig, NekoConfig, Neo4jConfig, PersonalityConfig, QdrantConfig,
    ResponseFormatConfig, SolidifyConfig, SqliteConfig, StatusConfig, WebSocketConfig,
};
use neko_router::secret::Secret;
use neko_router::single::Single;
use neko_router::types::ResponseFormat;

fn single(x: f32) -> Single {
    Single { bits: x.to_bits() }
}

fn provider(model: &str) -> LlmProviderConfig {
    LlmProviderConfig {
        base_url: "http://h/v1".to_string(),
        model: model.to_string(),
        api_key: Secret::new("${KEY}".to_string()),
        temperature: single(0.8),
        max_tokens: None,
        response_format: ResponseFormatConfig::Json,
    }
}

fn config() -> NekoConfig {
    NekoConfig {
        bot: BotConfig { name: "Neko".to_string(), qq_id: 7 },
        websocket: WebSocketConfig {
            url: "ws://x".to_string(),
            reconnect_interval_sec: 5,
            token: String::new(),
        },
        sqlite: SqliteConfig { path: "p".to_string(), batch_size: 50, flush_interval_ms: 9 },
        qdrant: QdrantConfig { url: String::new(), collection: "c".to_string(), vector_dim: 4 },
        embedding: EmbeddingConfig {
            base_url: "http://e".to_string(),
            model: "em".to_string(),
            api_key: Secret::new("ek".to_string()),
        },
        neo4j: Neo4jConfig {
            uri: String::new(),
            user: "u".to_string(),
            password: Secret::new("${PW}".to_string()),
        },
        llm: LlmConfig {
            council: "a".to_string(),
            detective: Some("b".to_string()),
            solidify: None,
            providers: vec![("a".to_string(), provider("ma")), ("b".to_string(), provider("mb"))],
        },
        gate: GateSection {
            classifier: "default".to_string(),
            provider: "b".to_string(),
            context_messages: 10,
            cache_ttl_sec: 30,
            rate_limit_per_min: 60,
        },
        burst: BurstSection {
            detection_enabled: true,
            window_sec: 60,
            threshold_mpm: single(6.0),
            threshold_participants: 3,
            threshold_gap_sec: single(30.0),
            cooldown_sec: 120,
        },
        personality: PersonalityConfig {
            max_cozy_words: 10,
            max_message_length: 800,
            energy_decay_per_min: single(0.05),
            favor_decay_per_min: single(0.02),
            min_reply_interval_sec: 3,
        },
        solidify: SolidifyConfig { cron: "0 0 3 * * *".to_string(), timezone: String::new() },
        status: StatusConfig { host: "127.0.0.1".to_string(), port: 8080 },
    }
}

fn lookup(name: &str) -> Option<String> {
    match name {
        "NEKO_TEST_KEY" | "KEY" => Some("real-key".to_string()),
        _ => None,
    }
}

#[test]
fn expands_env_placeholder() {
    let secret = Secret::new("${NEKO_TEST_KEY}".to_string());
    let expanded = expand_secret(&secret, &lookup);
    assert_eq!(expanded.expose(), "real-key");
}

#[test]
fn leaves_literal_secret_unchanged() {
    let secret = Secret::new("literal-key".to_string());
    let expanded = expand_secret(&secret, &lookup);
    assert_eq!(expanded.expose(), "literal-key");
}

#[test]
fn unknown_variables_stay() {
    for s in ["${NOPE}", "${", "$KEY", "${KEY", "x${KEY}", "${}"] {
        assert_eq!(expand_secret(&Secret::new(s.to_string()), &lookup).expose(), s);
    }
}

#[test]
fn expands_every_secret() {
    let mut c = config();
    c.expand_env_placeholders(&lookup);
    assert_eq!(c.llm.providers[0].1.api_key.expose(), "real-key");
    assert_eq!(c.llm.providers[1].1.api_key.expose(), "real-key");
    assert_eq!(c.llm.providers[1].1.model, "mb");
    assert_eq!(c.embedding.api_key.expose(), "ek");
    assert_eq!(c.neo4j.password.expose(), "${PW}");
}

#[test]
fn providers_fall_back_to_the_council() {
    let c = config();
    assert_eq!(c.gate_provider().ok().unwrap().model, "mb");
    assert_eq!(c.council_provider().ok().unwrap().model, "ma");
    assert_eq!(c.detective_provider().ok().unwrap().model, "mb");
    assert_eq!(c.solidify_provider().ok().unwrap().model, "ma");
}

fn fault(change: fn(&mut NekoConfig)) -> String {
    let mut c = config();
    change(&mut c);
    match c.validate() {
        Ok(()) => "ok".to_string(),
        Err(e) => e.message(),
    }
}

#[test]
fn faults_are_named() {
    assert_eq!(fault(|_| {}), "ok");
    assert_eq!(fault(|c| c.websocket.url = String::new()), "config error: websocket.url is required");
    assert_eq!(fault(|c| c.sqlite.path = String::new()), "config error: sqlite.path is required");
    assert_eq!(fault(|c| c.gate.provider = "z".to_string()), "config error: gate provider 'z' not found");
    assert_eq!(fault(|c| c.llm.council = "z".to_string()), "config error: council provider 'z' not found");
    assert_eq!(
        fault(|c| c.llm.detective = Some("z".to_string())),
        "config error: detective provider 'z' not found"
    );
    assert_eq!(
        fault(|c| c.llm.solidify = Some("z".to_string())),
        "config error: solidify provider 'z' not found"
    );
    assert_eq!(fault(|c| c.embedding.model = String::new()), "ok");
    assert_eq!(
        fault(|c| {
            c.qdrant.url = "q".to_string();
            c.embedding.base_url = String::new();
        }),
        "config error: embedding.base_url is required when qdrant is enabled"
    );
    assert_eq!(
        fault(|c| {
            c.qdrant.url = "q".to_string();
            c.embedding.model = String::new();
        }),
        "config error: embedding.model is required when qdrant is enabled"
    );
    assert_eq!(
        fault(|c| {
            c.qdrant.url = "q".to_string();
            c.embedding.api_key = Secret::new(String::new());
        }),
        "config error: embedding.api_key is required when qdrant is enabled"
    );
    assert_eq!(
        fault(|c| c.llm.providers[1].1.api_key = Secret::new(String::new())),
        "config error: llm.providers.b.api_key is required"
    );
    assert_eq!(
        fault(|c| c.llm.providers[0].1.base_url = String::new()),
        "config error: llm.providers.a.base_url is required"
    );
    assert_eq!(
        fault(|c| c.llm.providers[0].1.model = String::new()),
        "config error: llm.providers.a.model is required"
    );
}

#[test]
fn layers_are_set_up_from_the_configuration() {
    let mut c = config();
    let s = c.sensory_config();
    assert_eq!((s.batch_size, s.flush_interval_ms, s.max_recent_messages), (50, 9, 1024));
    assert_eq!(s.burst_cooldown_sec, 120);
    let g = c.gate_config();
    assert_eq!((g.max_message_length, g.max_ambient_words, g.concurrency_limit), (800, 10, 8));
    assert_eq!(g.heuristic, "default");
    assert!(c.gate_classifier().ok().unwrap().is_none());
    c.gate.classifier = "llm".to_string();
    let model = c.gate_classifier().ok().unwrap().unwrap();
    assert_eq!(model.context_messages, c.gate.context_messages);
    assert_eq!(model.llm_temperature, c.gate_provider().ok().unwrap().temperature);
    c.gate.provider = "z".to_string();
    assert_eq!(
        c.gate_classifier().err().unwrap().message(),
        "config error: gate provider 'z' not found"
    );
    let id = c.bot_identity();
    assert_eq!((id.qq_id, id.name.as_str()), (7, "Neko"));
    assert_eq!(id.aliases, vec!["猫娘".to_string(), "机器人".to_string()]);
    assert_eq!(c.napcat_token(), None);
    c.websocket.token = "t".to_string();
    assert_eq!(c.napcat_token(), Some("t".to_string()));
    assert_eq!(c.status_bind_addr(), "127.0.0.1:8080");
    assert_eq!(c.reply_interval(), 3_000_000_000);
    assert!(!c.uses_qdrant() && !c.uses_neo4j());
    let p = c.council_provider().ok().unwrap();
    assert_eq!(p.format(), ResponseFormat::JsonObject);
    assert_eq!(p.council_config().llm_max_tokens, 512);
    assert_eq!(p.council_config().detective_timeout, 300_000_000_000);
    assert_eq!(p.detective_config().llm_max_tokens, 1024);
    assert_eq!(p.solidify_config().report_buffer_limit, 100);
    let client = p.client("council", p.format()).ok().unwrap();
    assert_eq!(client.name(), "council");
    assert_eq!(client.endpoint().unwrap(), "http://h/v1/chat/completions");
    let e = c.embedding_client().ok().unwrap();
    assert_eq!((e.name(), e.vector_dim()), ("embedding", 4));
    assert_eq!(ResponseFormatConfig::default(), ResponseFormatConfig::Text);
}

#[test]
fn zones_are_checked() {
    let zone = |tz: &str| SolidifyConfig { cron: String::new(), timezone: tz.to_string() }.zone();
    assert_eq!(zone("").unwrap(), "UTC");
    assert_eq!(zone("Asia/Shanghai").unwrap(), "Asia/Shanghai");
    assert_eq!(
        zone("Mars/Base").unwrap_err().message(),
        "config error: invalid solidify timezone 'Mars/Base': failed to parse timezone"
    );
}
