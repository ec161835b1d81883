//! The configuration: its sections, its checks, and what the layers are set up
//! with.

use vstd::prelude::*;
use vstd::string::*;
use crate::council::CouncilConfig;
use crate::detective::DetectiveConfig;
use crate::error::{ErrorKind, NekoError};
use crate::gate::{BotIdentity, GateConfig, LlmGateClassifier};
use crate::llm::{client_fault, OpenAiCompatibleClient, OpenAiEmbeddingClient};
use crate::number::{integer_text, unsigned_to_text};
use crate::secret::Secret;
use crate::sensory::SensoryConfig;
use crate::single::Single;
use crate::text::{begins, ends, same, strip_prefix, strip_suffix, texts, without_end};
use crate::types::ResponseFormat;

verus! {

/// The whole configuration.
pub struct NekoConfig {
    pub bot: BotConfig,
    pub websocket: WebSocketConfig,
    pub sqlite: SqliteConfig,
    pub qdrant: QdrantConfig,
    pub embedding: EmbeddingConfig,
    pub neo4j: Neo4jConfig,
    pub llm: LlmConfig,
    pub gate: GateSection,
    pub burst: BurstSection,
    pub personality: PersonalityConfig,
    pub solidify: SolidifyConfig,
    pub status: StatusConfig,
}

/// Who the bot is.
#[derive(Debug, Clone)]
pub struct BotConfig {
    pub name: String,
    pub qq_id: u64,
}

/// Where the platform is reached.
#[derive(Debug, Clone)]
pub struct WebSocketConfig {
    pub url: String,
    pub reconnect_interval_sec: u64,
    /// The access token, empty where there is none.
    pub token: String,
}

/// Where the history is kept.
#[derive(Debug, Clone)]
pub struct SqliteConfig {
    pub path: String,
    pub batch_size: usize,
    pub flush_interval_ms: u64,
}

/// Where the vector memory is kept; an empty address means in memory.
#[derive(Debug, Clone)]
pub struct QdrantConfig {
    pub url: String,
    pub collection: String,
    pub vector_dim: usize,
}

/// Who provides embeddings.
pub struct EmbeddingConfig {
    pub base_url: String,
    pub model: String,
    pub api_key: Secret,
}

/// Where the graph is kept; an empty address means in memory.
pub struct Neo4jConfig {
    pub uri: String,
    pub user: String,
    pub password: Secret,
}

/// Who provides completions.
pub struct LlmConfig {
    pub council: String,
    /// The provider of the detective, where it is not that of the council.
    pub detective: Option<String>,
    /// The provider of the last layer, where it is not that of the council.
    pub solidify: Option<String>,
    /// The providers by name.
    pub providers: Vec<(String, LlmProviderConfig)>,
}

/// A provider of completions.
pub struct LlmProviderConfig {
    pub base_url: String,
    pub model: String,
    pub api_key: Secret,
    pub temperature: Single,
    pub max_tokens: Option<u32>,
    pub response_format: ResponseFormatConfig,
}

/// The format that a provider answers in.
#[derive(Debug, Clone, Copy, PartialEq, Eq, Structural)]
pub enum ResponseFormatConfig {
    Text,
    Json,
}

impl Default for ResponseFormatConfig {
    fn default() -> (res: Self)
        ensures
            res == ResponseFormatConfig::Text,
    {
        ResponseFormatConfig::Text
    }
}

/// How the second layer decides.
#[derive(Debug, Clone)]
pub struct GateSection {
    /// `default`, `llm` for a model, or `escalate_all`.
    pub classifier: String,
    /// The provider of the model.
    pub provider: String,
    /// How many of the latest messages the model is told.
    pub context_messages: usize,
    pub cache_ttl_sec: u64,
    pub rate_limit_per_min: u32,
}

/// When a conversation counts as heated.
#[derive(Debug, Clone, Copy, PartialEq, Eq, Structural)]
pub struct BurstSection {
    pub detection_enabled: bool,
    pub window_sec: u64,
    pub threshold_mpm: Single,
    pub threshold_participants: usize,
    pub threshold_gap_sec: Single,
    pub cooldown_sec: u64,
}

/// How the bot behaves.
#[derive(Debug, Clone, Copy, PartialEq, Eq, Structural)]
pub struct PersonalityConfig {
    pub max_cozy_words: usize,
    pub max_message_length: usize,
    pub energy_decay_per_min: Single,
    pub favor_decay_per_min: Single,
    /// The least time between replies to a group, in seconds.
    pub min_reply_interval_sec: u64,
}

/// When the last layer runs.
#[derive(Debug, Clone)]
pub struct SolidifyConfig {
    pub cron: String,
    /// The time zone, empty for UTC.
    pub timezone: String,
}

/// Where the status is served.
#[derive(Debug, Clone)]
pub struct StatusConfig {
    pub host: String,
    pub port: u16,
}

/// Where the first provider with the name `name` stands, from position `from` on.
pub open spec fn provider_at(
    providers: Seq<(String, LlmProviderConfig)>,
    name: Seq<char>,
    from: int,
) -> Option<int>
    decreases providers.len() - from,
{
    if from < 0 || from >= providers.len() {
        None
    } else if providers[from].0@ == name {
        Some(from)
    } else {
        provider_at(providers, name, from + 1)
    }
}

/// What is said of a provider that is not there.
pub open spec fn no_provider(layer: Seq<char>, name: Seq<char>) -> Seq<char> {
    layer + " provider '"@ + name + "' not found"@
}

/// What is wrong with the choice of a provider, if anything.
pub open spec fn choice_fault(
    providers: Seq<(String, LlmProviderConfig)>,
    layer: Seq<char>,
    name: Seq<char>,
) -> Option<Seq<char>> {
    match provider_at(providers, name, 0) {
        Some(_) => None,
        None => Some(no_provider(layer, name)),
    }
}

/// What is wrong with the provider of a layer that may share that of the
/// council, if anything.
pub open spec fn shared_fault(
    c: NekoConfig,
    layer: Seq<char>,
    name: Option<String>,
) -> Option<Seq<char>> {
    match name {
        Some(n) => choice_fault(c.llm.providers@, layer, n@),
        None => choice_fault(c.llm.providers@, "council"@, c.llm.council@),
    }
}

/// What is wrong with the embeddings, if anything.
pub open spec fn embedding_fault(c: NekoConfig) -> Option<Seq<char>> {
    if c.qdrant.url@.len() == 0 {
        None
    } else if c.embedding.base_url@.len() == 0 {
        Some("embedding.base_url is required when qdrant is enabled"@)
    } else if c.embedding.model@.len() == 0 {
        Some("embedding.model is required when qdrant is enabled"@)
    } else if c.embedding.api_key@.len() == 0 {
        Some("embedding.api_key is required when qdrant is enabled"@)
    } else {
        None
    }
}

/// What is wrong with a provider, if anything.
pub open spec fn provider_fault(entry: (String, LlmProviderConfig)) -> Option<Seq<char>> {
    if entry.1.api_key@.len() == 0 {
        Some("llm.providers."@ + entry.0@ + ".api_key is required"@)
    } else if entry.1.base_url@.len() == 0 {
        Some("llm.providers."@ + entry.0@ + ".base_url is required"@)
    } else if entry.1.model@.len() == 0 {
        Some("llm.providers."@ + entry.0@ + ".model is required"@)
    } else {
        None
    }
}

/// What is wrong with the first faulty provider, from position `from` on.
pub open spec fn providers_fault(
    providers: Seq<(String, LlmProviderConfig)>,
    from: int,
) -> Option<Seq<char>>
    decreases providers.len() - from,
{
    if from < 0 || from >= providers.len() {
        None
    } else if provider_fault(providers[from]) is Some {
        provider_fault(providers[from])
    } else {
        providers_fault(providers, from + 1)
    }
}

/// What is wrong with the configuration, if anything: the first fault in the
/// order of the checks.
pub open spec fn fault(c: NekoConfig) -> Option<Seq<char>> {
    if c.websocket.url@.len() == 0 {
        Some("websocket.url is required"@)
    } else if c.sqlite.path@.len() == 0 {
        Some("sqlite.path is required"@)
    } else if choice_fault(c.llm.providers@, "gate"@, c.gate.provider@) is Some {
        choice_fault(c.llm.providers@, "gate"@, c.gate.provider@)
    } else if choice_fault(c.llm.providers@, "council"@, c.llm.council@) is Some {
        choice_fault(c.llm.providers@, "council"@, c.llm.council@)
    } else if shared_fault(c, "detective"@, c.llm.detective) is Some {
        shared_fault(c, "detective"@, c.llm.detective)
    } else if shared_fault(c, "solidify"@, c.llm.solidify) is Some {
        shared_fault(c, "solidify"@, c.llm.solidify)
    } else if embedding_fault(c) is Some {
        embedding_fault(c)
    } else {
        providers_fault(c.llm.providers@, 0)
    }
}

/// The name of the variable that a placeholder `${...}` stands for.
pub open spec fn placeholder(value: Seq<char>) -> Option<Seq<char>> {
    if begins(value, "${"@) && ends(value.skip("${"@.len() as int), "}"@) {
        let inner = value.skip("${"@.len() as int);
        Some(inner.take(inner.len() - "}"@.len()))
    } else {
        None
    }
}

/// `lookup` takes any name.
pub open spec fn looks_up_all<L: Fn(&str) -> Option<String>>(lookup: L) -> bool {
    forall|name: &str| #[trigger] call_requires(lookup, (name,))
}

/// `lookup` may give `got` for the variable `name`.
pub open spec fn looked_up<L: Fn(&str) -> Option<String>>(
    lookup: L,
    name: Seq<char>,
    got: Option<String>,
) -> bool {
    exists|s: &str| s@ == name && #[trigger] call_ensures(lookup, (s,), got)
}

/// `after` is the credential `before` with a placeholder replaced by the value
/// of its variable, where that has one.
pub open spec fn expanded<L: Fn(&str) -> Option<String>>(
    lookup: L,
    before: Seq<char>,
    after: Seq<char>,
) -> bool {
    match placeholder(before) {
        Some(name) => exists|got: Option<String>| #[trigger]
            looked_up(lookup, name, got) && after == match got {
                Some(value) => value@,
                None => before,
            },
        None => after == before,
    }
}

/// Replaces a placeholder by the value of its variable, where that has one.
pub fn expand_secret<L: Fn(&str) -> Option<String>>(secret: &Secret, lookup: &L) -> (res: Secret)
    requires
        looks_up_all(*lookup),
    ensures
        expanded(*lookup, secret@, res@),
{
    let value: &str = secret.expose();
    if let Some(rest) = strip_prefix(value, "${") {
        if let Some(name) = strip_suffix(rest.as_str(), "}") {
            let key: &str = name.as_str();
            let got: Option<String> = lookup(key);
            proof {
                assert(placeholder(secret@) == Some(name@));
                assert(key@ == name@ && call_ensures(*lookup, (key,), got));
                assert(looked_up(*lookup, placeholder(secret@)->0, got));
                assert(expanded(
                    *lookup,
                    secret@,
                    match got {
                        Some(v) => v@,
                        None => secret@,
                    },
                ));
            }
            if let Some(found) = got {
                return Secret::new(found);
            }
            return secret.copy();
        }
    }
    secret.copy()
}

/// The provider is the same but for its key, which is expanded.
pub open spec fn provider_expanded<L: Fn(&str) -> Option<String>>(
    lookup: L,
    before: (String, LlmProviderConfig),
    after: (String, LlmProviderConfig),
) -> bool {
    &&& after.0@ == before.0@
    &&& after.1.base_url@ == before.1.base_url@
    &&& after.1.model@ == before.1.model@
    &&& expanded(lookup, before.1.api_key@, after.1.api_key@)
    &&& after.1.temperature == before.1.temperature
    &&& after.1.max_tokens == before.1.max_tokens
    &&& after.1.response_format == before.1.response_format
}

impl NekoConfig {
    /// Replaces the placeholders in the keys of the providers, the key of the
    /// embeddings and the password of the graph.
    pub fn expand_env_placeholders<L: Fn(&str) -> Option<String>>(&mut self, lookup: &L)
        requires
            looks_up_all(*lookup),
        ensures
            expanded(*lookup, old(self).embedding.api_key@, final(self).embedding.api_key@),
            expanded(*lookup, old(self).neo4j.password@, final(self).neo4j.password@),
            final(self).llm.providers@.len() == old(self).llm.providers@.len(),
            forall|i: int|
                0 <= i < final(self).llm.providers@.len() ==> provider_expanded(
                    *lookup,
                    old(self).llm.providers@[i],
                    #[trigger] final(self).llm.providers@[i],
                ),
            final(self).bot == old(self).bot,
            final(self).websocket == old(self).websocket,
            final(self).sqlite == old(self).sqlite,
            final(self).qdrant == old(self).qdrant,
            final(self).embedding.base_url == old(self).embedding.base_url,
            final(self).embedding.model == old(self).embedding.model,
            final(self).neo4j.uri == old(self).neo4j.uri,
            final(self).neo4j.user == old(self).neo4j.user,
            final(self).llm.council == old(self).llm.council,
            final(self).llm.detective == old(self).llm.detective,
            final(self).llm.solidify == old(self).llm.solidify,
            final(self).gate == old(self).gate,
            final(self).burst == old(self).burst,
            final(self).personality == old(self).personality,
            final(self).solidify == old(self).solidify,
            final(self).status == old(self).status,
    {
        let key: Secret = expand_secret(&self.embedding.api_key, lookup);
        let password: Secret = expand_secret(&self.neo4j.password, lookup);
        let mut providers: Vec<(String, LlmProviderConfig)> = Vec::new();
        let mut i: usize = 0;
        while i < self.llm.providers.len()
            invariant
                0 <= i <= self.llm.providers@.len(),
                looks_up_all(*lookup),
                *self == *old(self),
                providers@.len() == i,
                forall|k: int|
                    0 <= k < i ==> provider_expanded(
                        *lookup,
                        old(self).llm.providers@[k],
                        #[trigger] providers@[k],
                    ),
            decreases self.llm.providers@.len() - i,
        {
            let p: &LlmProviderConfig = &self.llm.providers[i].1;
            providers.push(
                (
                    self.llm.providers[i].0.clone(),
                    LlmProviderConfig {
                        base_url: p.base_url.clone(),
                        model: p.model.clone(),
                        api_key: expand_secret(&p.api_key, lookup),
                        temperature: p.temperature,
                        max_tokens: p.max_tokens,
                        response_format: p.response_format,
                    },
                ),
            );
            i = i + 1;
        }
        self.embedding.api_key = key;
        self.neo4j.password = password;
        self.llm.providers = providers;
    }

    /// The provider that goes by a name.
    fn provider(&self, layer: &str, name: &str) -> (res: Result<&LlmProviderConfig, NekoError>)
        ensures
            match res {
                Ok(p) => provider_at(self.llm.providers@, name@, 0) matches Some(i)
                    && self.llm.providers@[i].1 == *p && choice_fault(
                    self.llm.providers@,
                    layer@,
                    name@,
                ) is None,
                Err(e) => choice_fault(self.llm.providers@, layer@, name@) matches Some(m)
                    && e.says(ErrorKind::Config, m),
            },
    {
        let mut i: usize = 0;
        while i < self.llm.providers.len()
            invariant
                0 <= i <= self.llm.providers@.len(),
                provider_at(self.llm.providers@, name@, 0) == provider_at(
                    self.llm.providers@,
                    name@,
                    i as int,
                ),
            decreases self.llm.providers@.len() - i,
        {
            if same(self.llm.providers[i].0.as_str(), name) {
                return Ok(&self.llm.providers[i].1);
            }
            i = i + 1;
        }
        let text: String = layer.to_string().concat(" provider '").concat(name).concat(
            "' not found",
        );
        Err(NekoError::config(text))
    }

    /// The provider of the second layer.
    pub fn gate_provider(&self) -> (res: Result<&LlmProviderConfig, NekoError>)
        ensures
            match res {
                Ok(p) => provider_at(self.llm.providers@, self.gate.provider@, 0) matches Some(i)
                    && self.llm.providers@[i].1 == *p && choice_fault(
                    self.llm.providers@,
                    "gate"@,
                    self.gate.provider@,
                ) is None,
                Err(e) => choice_fault(
                    self.llm.providers@,
                    "gate"@,
                    self.gate.provider@,
                ) matches Some(m) && e.says(ErrorKind::Config, m),
            },
    {
        self.provider("gate", self.gate.provider.as_str())
    }

    /// The provider of the council.
    pub fn council_provider(&self) -> (res: Result<&LlmProviderConfig, NekoError>)
        ensures
            match res {
                Ok(p) => provider_at(self.llm.providers@, self.llm.council@, 0) matches Some(i)
                    && self.llm.providers@[i].1 == *p && choice_fault(
                    self.llm.providers@,
                    "council"@,
                    self.llm.council@,
                ) is None,
                Err(e) => choice_fault(
                    self.llm.providers@,
                    "council"@,
                    self.llm.council@,
                ) matches Some(m) && e.says(ErrorKind::Config, m),
            },
    {
        self.provider("council", self.llm.council.as_str())
    }

    /// The name of the provider of a layer that may share that of the council.
    pub open spec fn shared_name(self, name: Option<String>) -> Seq<char> {
        match name {
            Some(n) => n@,
            None => self.llm.council@,
        }
    }

    /// The provider of the detective: its own, or that of the council.
    pub fn detective_provider(&self) -> (res: Result<&LlmProviderConfig, NekoError>)
        ensures
            match res {
                Ok(p) => provider_at(
                    self.llm.providers@,
                    self.shared_name(self.llm.detective),
                    0,
                ) matches Some(i) && self.llm.providers@[i].1 == *p && shared_fault(
                    *self,
                    "detective"@,
                    self.llm.detective,
                ) is None,
                Err(e) => shared_fault(*self, "detective"@, self.llm.detective) matches Some(m)
                    && e.says(ErrorKind::Config, m),
            },
    {
        match &self.llm.detective {
            Some(name) => self.provider("detective", name.as_str()),
            None => self.council_provider(),
        }
    }

    /// The provider of the last layer: its own, or that of the council.
    pub fn solidify_provider(&self) -> (res: Result<&LlmProviderConfig, NekoError>)
        ensures
            match res {
                Ok(p) => provider_at(
                    self.llm.providers@,
                    self.shared_name(self.llm.solidify),
                    0,
                ) matches Some(i) && self.llm.providers@[i].1 == *p && shared_fault(
                    *self,
                    "solidify"@,
                    self.llm.solidify,
                ) is None,
                Err(e) => shared_fault(*self, "solidify"@, self.llm.solidify) matches Some(m)
                    && e.says(ErrorKind::Config, m),
            },
    {
        match &self.llm.solidify {
            Some(name) => self.provider("solidify", name.as_str()),
            None => self.council_provider(),
        }
    }

    /// Checks the configuration.
    pub fn validate(&self) -> (res: Result<(), NekoError>)
        ensures
            match res {
                Ok(_) => fault(*self) is None,
                Err(e) => fault(*self) matches Some(m) && e.says(ErrorKind::Config, m),
            },
    {
        if self.websocket.url.as_str().is_empty() {
            return Err(NekoError::config("websocket.url is required".to_string()));
        }
        if self.sqlite.path.as_str().is_empty() {
            return Err(NekoError::config("sqlite.path is required".to_string()));
        }
        if let Err(e) = self.gate_provider() {
            return Err(e);
        }
        if let Err(e) = self.council_provider() {
            return Err(e);
        }
        if let Err(e) = self.detective_provider() {
            return Err(e);
        }
        if let Err(e) = self.solidify_provider() {
            return Err(e);
        }
        if !self.qdrant.url.as_str().is_empty() {
            if self.embedding.base_url.as_str().is_empty() {
                return Err(
                    NekoError::config(
                        "embedding.base_url is required when qdrant is enabled".to_string(),
                    ),
                );
            }
            if self.embedding.model.as_str().is_empty() {
                return Err(
                    NekoError::config(
                        "embedding.model is required when qdrant is enabled".to_string(),
                    ),
                );
            }
            if self.embedding.api_key.expose().is_empty() {
                return Err(
                    NekoError::config(
                        "embedding.api_key is required when qdrant is enabled".to_string(),
                    ),
                );
            }
        }
        let mut i: usize = 0;
        while i < self.llm.providers.len()
            invariant
                0 <= i <= self.llm.providers@.len(),
                fault(*self) == providers_fault(self.llm.providers@, i as int),
            decreases self.llm.providers@.len() - i,
        {
            let name: &String = &self.llm.providers[i].0;
            let p: &LlmProviderConfig = &self.llm.providers[i].1;
            let missing: &str = if p.api_key.expose().is_empty() {
                ".api_key is required"
            } else if p.base_url.as_str().is_empty() {
                ".base_url is required"
            } else if p.model.as_str().is_empty() {
                ".model is required"
            } else {
                ""
            };
            proof {
                reveal_strlit("");
                reveal_strlit(".api_key is required");
                reveal_strlit(".base_url is required");
                reveal_strlit(".model is required");
            }
            if !missing.is_empty() {
                let text: String = "llm.providers.".to_string().concat(name.as_str()).concat(
                    missing,
                );
                return Err(NekoError::config(text));
            }
            i = i + 1;
        }
        Ok(())
    }

    /// What the first layer is set up with.
    pub fn sensory_config(&self) -> (res: SensoryConfig)
        ensures
            res == (SensoryConfig {
                batch_size: self.sqlite.batch_size,
                flush_interval_ms: self.sqlite.flush_interval_ms,
                energy_decay_per_min: self.personality.energy_decay_per_min,
                favor_decay_per_min: self.personality.favor_decay_per_min,
                max_recent_messages: 1024,
                burst_detection_enabled: self.burst.detection_enabled,
                burst_window_sec: self.burst.window_sec,
                burst_threshold_mpm: self.burst.threshold_mpm,
                burst_threshold_participants: self.burst.threshold_participants,
                burst_threshold_gap_sec: self.burst.threshold_gap_sec,
                burst_cooldown_sec: self.burst.cooldown_sec,
            }),
    {
        SensoryConfig {
            batch_size: self.sqlite.batch_size,
            flush_interval_ms: self.sqlite.flush_interval_ms,
            energy_decay_per_min: self.personality.energy_decay_per_min,
            favor_decay_per_min: self.personality.favor_decay_per_min,
            max_recent_messages: 1024,
            burst_detection_enabled: self.burst.detection_enabled,
            burst_window_sec: self.burst.window_sec,
            burst_threshold_mpm: self.burst.threshold_mpm,
            burst_threshold_participants: self.burst.threshold_participants,
            burst_threshold_gap_sec: self.burst.threshold_gap_sec,
            burst_cooldown_sec: self.burst.cooldown_sec,
        }
    }

    /// What the second layer is set up with.
    pub fn gate_config(&self) -> (res: GateConfig)
        ensures
            res.max_message_length == self.personality.max_message_length,
            res.max_ambient_words == self.personality.max_cozy_words,
            res.concurrency_limit == 8,
            res.heuristic@ == self.gate.classifier@,
    {
        GateConfig {
            max_message_length: self.personality.max_message_length,
            max_ambient_words: self.personality.max_cozy_words,
            concurrency_limit: 8,
            heuristic: self.gate.classifier.clone(),
        }
    }

    /// What asks a model in the second layer, where one is to be asked; it is
    /// the model of the provider that the second layer names.
    pub fn gate_classifier(&self) -> (res: Result<Option<LlmGateClassifier>, NekoError>)
        ensures
            match res {
                Ok(None) => self.gate.classifier@ != "llm"@,
                Ok(Some(c)) => self.gate.classifier@ == "llm"@ && (provider_at(
                    self.llm.providers@,
                    self.gate.provider@,
                    0,
                ) matches Some(i) && c == (LlmGateClassifier {
                    context_messages: self.gate.context_messages,
                    llm_temperature: self.llm.providers@[i].1.temperature,
                    llm_max_tokens: self.llm.providers@[i].1.tokens_or(256),
                })),
                Err(e) => self.gate.classifier@ == "llm"@ && (choice_fault(
                    self.llm.providers@,
                    "gate"@,
                    self.gate.provider@,
                ) matches Some(m) && e.says(ErrorKind::Config, m)),
            },
    {
        if !same(self.gate.classifier.as_str(), "llm") {
            return Ok(None);
        }
        match self.gate_provider() {
            Ok(p) => Ok(
                Some(
                    LlmGateClassifier {
                        context_messages: self.gate.context_messages,
                        llm_temperature: p.temperature,
                        llm_max_tokens: p.max_tokens_or(256),
                    },
                ),
            ),
            Err(e) => Err(e),
        }
    }

    /// Who the bot is.
    pub fn bot_identity(&self) -> (res: BotIdentity)
        ensures
            res.qq_id == self.bot.qq_id,
            res.name@ == self.bot.name@,
            texts(res.aliases@) == seq!["猫娘"@, "机器人"@],
    {
        let mut aliases: Vec<String> = Vec::new();
        aliases.push("猫娘".to_string());
        aliases.push("机器人".to_string());
        assert(texts(aliases@) =~= seq!["猫娘"@, "机器人"@]);
        BotIdentity { qq_id: self.bot.qq_id, name: self.bot.name.clone(), aliases }
    }

    /// The access token of the platform, where there is one.
    pub fn napcat_token(&self) -> (res: Option<String>)
        ensures
            match res {
                Some(token) => token@ == self.websocket.token@ && token@.len() > 0,
                None => self.websocket.token@.len() == 0,
            },
    {
        if self.websocket.token.as_str().is_empty() {
            None
        } else {
            Some(self.websocket.token.clone())
        }
    }

    /// The address that the status is served at.
    pub fn status_bind_addr(&self) -> (res: String)
        ensures
            res@ == self.status.host@ + ":"@ + integer_text(self.status.port as int),
    {
        self.status.host.clone().concat(":").concat(
            unsigned_to_text(self.status.port as u128).as_str(),
        )
    }

    /// The least time between replies to a group, in nanoseconds.
    pub fn reply_interval(&self) -> (res: u128)
        ensures
            res == self.personality.min_reply_interval_sec * 1_000_000_000,
    {
        self.personality.min_reply_interval_sec as u128 * 1_000_000_000
    }

    /// The vector memory is kept outside.
    pub fn uses_qdrant(&self) -> (res: bool)
        ensures
            res == (self.qdrant.url@.len() > 0),
    {
        !self.qdrant.url.as_str().is_empty()
    }

    /// The graph is kept outside.
    pub fn uses_neo4j(&self) -> (res: bool)
        ensures
            res == (self.neo4j.uri@.len() > 0),
    {
        !self.neo4j.uri.as_str().is_empty()
    }

    /// The provider of embeddings.
    pub fn embedding_client(&self) -> (res: Result<OpenAiEmbeddingClient, NekoError>)
        ensures
            match res {
                Ok(client) => {
                    &&& client_fault(self.embedding.base_url@, self.embedding.api_key@) is None
                    &&& client.called() == "embedding"@
                    &&& client.address() == without_end(self.embedding.base_url@, '/')
                    &&& client.asked_model() == self.embedding.model@
                    &&& client.key() == self.embedding.api_key@
                    &&& client.dim() == self.qdrant.vector_dim
                },
                Err(e) => client_fault(
                    self.embedding.base_url@,
                    self.embedding.api_key@,
                ) matches Some(m) && e.says(ErrorKind::Config, m),
            },
    {
        OpenAiEmbeddingClient::new(
            "embedding".to_string(),
            self.embedding.base_url.as_str(),
            self.embedding.model.clone(),
            self.embedding.api_key.copy(),
            self.qdrant.vector_dim,
        )
    }
}

/// The format that a request asks for.
pub open spec fn format_of(f: ResponseFormatConfig) -> ResponseFormat {
    match f {
        ResponseFormatConfig::Text => ResponseFormat::Text,
        ResponseFormatConfig::Json => ResponseFormat::JsonObject,
    }
}

impl LlmProviderConfig {
    /// The limit on tokens, or `default` where none is set.
    pub open spec fn tokens_or(self, default: u32) -> u32 {
        match self.max_tokens {
            Some(n) => n,
            None => default,
        }
    }

    /// The limit on tokens, or `default` where none is set.
    fn max_tokens_or(&self, default: u32) -> (res: u32)
        ensures
            res == self.tokens_or(default),
    {
        match self.max_tokens {
            Some(n) => n,
            None => default,
        }
    }

    /// The format that a request asks for.
    pub fn format(&self) -> (res: ResponseFormat)
        ensures
            res == format_of(self.response_format),
    {
        match self.response_format {
            ResponseFormatConfig::Text => ResponseFormat::Text,
            ResponseFormatConfig::Json => ResponseFormat::JsonObject,
        }
    }

    /// The provider as a client, under the given name.
    pub fn client(&self, name: &str, format: ResponseFormat) -> (res: Result<
        OpenAiCompatibleClient,
        NekoError,
    >)
        ensures
            match res {
                Ok(client) => {
                    &&& client_fault(self.base_url@, self.api_key@) is None
                    &&& client.called() == name@
                    &&& client.address() == without_end(self.base_url@, '/')
                    &&& client.asked_model() == self.model@
                    &&& client.key() == self.api_key@
                    &&& client.set_temperature() == self.temperature
                    &&& client.default_limit() == self.max_tokens
                    &&& client.default_format() == format
                    &&& client.retries() == 0
                },
                Err(e) => client_fault(self.base_url@, self.api_key@) matches Some(m) && e.says(
                    ErrorKind::Config,
                    m,
                ),
            },
    {
        OpenAiCompatibleClient::new(
            name.to_string(),
            self.base_url.as_str(),
            self.model.clone(),
            self.api_key.copy(),
            self.temperature,
            self.max_tokens,
            format,
        )
    }

    /// What the council is set up with.
    pub fn council_config(&self) -> (res: CouncilConfig)
        ensures
            res == (CouncilConfig {
                context_limit: 10,
                llm_temperature: self.temperature,
                llm_max_tokens: self.tokens_or(512),
                detective_timeout: 300_000_000_000,
            }),
    {
        CouncilConfig {
            context_limit: 10,
            llm_temperature: self.temperature,
            llm_max_tokens: self.max_tokens_or(512),
            detective_timeout: 300_000_000_000,
        }
    }

    /// What the detective is set up with.
    pub fn detective_config(&self) -> (res: DetectiveConfig)
        ensures
            res == (DetectiveConfig {
                history_limit: 20,
                memory_top_k: 5,
                llm_temperature: self.temperature,
                llm_max_tokens: self.tokens_or(1024),
                fact_dedup_threshold: Single { bits: 0x3f6b_851f },
            }),
    {
        DetectiveConfig {
            history_limit: 20,
            memory_top_k: 5,
            llm_temperature: self.temperature,
            llm_max_tokens: self.max_tokens_or(1024),
            fact_dedup_threshold: Single { bits: 0x3f6b_851f },
        }
    }

    /// What the last layer is set up with.
    pub fn solidify_config(&self) -> (res: crate::solidify::SolidifyConfig)
        ensures
            res == (crate::solidify::SolidifyConfig {
                report_buffer_limit: 100,
                llm_temperature: self.temperature,
                llm_max_tokens: self.tokens_or(1024),
            }),
    {
        crate::solidify::SolidifyConfig {
            report_buffer_limit: 100,
            llm_temperature: self.temperature,
            llm_max_tokens: self.max_tokens_or(1024),
        }
    }
}

/// The time zone is known.
pub uninterp spec fn zone_known(name: Seq<char>) -> bool;

/// Whether a time zone is known, and the message otherwise.
///
/// Stands for `str::parse` into `chrono_tz::Tz`: which names are known is
/// named, not described; all others have one message.
#[verifier::external_body]
fn check_zone(name: &str) -> (res: Result<(), String>)
    ensures
        match res {
            Ok(_) => zone_known(name@),
            Err(e) => !zone_known(name@) && e@ == "failed to parse timezone"@,
        },
{
    match name.parse::<chrono_tz::Tz>() {
        Ok(_) => Ok(()),
        Err(e) => Err(e.to_string()),
    }
}

impl SolidifyConfig {
    /// The time zone: the configured one, and UTC where none is.
    pub fn zone(&self) -> (res: Result<String, NekoError>)
        ensures
            match res {
                Ok(name) => if self.timezone@.len() == 0 {
                    name@ == "UTC"@
                } else {
                    name@ == self.timezone@ && zone_known(self.timezone@)
                },
                Err(e) => self.timezone@.len() > 0 && !zone_known(self.timezone@) && e.says(
                    ErrorKind::Config,
                    "invalid solidify timezone '"@ + self.timezone@ + "': "@
                        + "failed to parse timezone"@,
                ),
            },
    {
        if self.timezone.as_str().is_empty() {
            return Ok("UTC".to_string());
        }
        match check_zone(self.timezone.as_str()) {
            Ok(_) => Ok(self.timezone.clone()),
            Err(e) => {
                let text: String = "invalid solidify timezone '".to_string().concat(
                    self.timezone.as_str(),
                ).concat("': ").concat(e.as_str());
                Err(NekoError::config(text))
            },
        }
    }
}

/// In a checked configuration every layer has a provider, with an address, a
/// model and a key.
pub proof fn law_checked_layers_have_providers(c: NekoConfig)
    requires
        fault(c) is None,
    ensures
        provider_at(c.llm.providers@, c.gate.provider@, 0) is Some,
        provider_at(c.llm.providers@, c.llm.council@, 0) is Some,
        provider_at(c.llm.providers@, c.shared_name(c.llm.detective), 0) is Some,
        provider_at(c.llm.providers@, c.shared_name(c.llm.solidify), 0) is Some,
        forall|i: int|
            0 <= i < c.llm.providers@.len() ==> provider_fault(#[trigger] c.llm.providers@[i])
                is None,
{
    lemma_no_fault(c.llm.providers@, 0);
}

proof fn lemma_no_fault(providers: Seq<(String, LlmProviderConfig)>, from: int)
    requires
        0 <= from,
        providers_fault(providers, from) is None,
    ensures
        forall|i: int|
            from <= i < providers.len() ==> provider_fault(#[trigger] providers[i]) is None,
    decreases providers.len() - from,
{
    if from < providers.len() {
        lemma_no_fault(providers, from + 1);
    }
}

/// A literal credential is left as it is, and so is a placeholder whose
/// variable has no value.
pub proof fn law_literal_secret_stays<L: Fn(&str) -> Option<String>>(
    lookup: L,
    before: Seq<char>,
    after: Seq<char>,
)
    requires
        expanded(lookup, before, after),
        placeholder(before) is None || forall|got: Option<String>| #[trigger]
            looked_up(lookup, placeholder(before)->0, got) ==> got is None,
    ensures
        after == before,
{
}

/// A provider is found by its name: the first that has it, wherever it stands.
pub proof fn law_provider_goes_by_name(
    providers: Seq<(String, LlmProviderConfig)>,
    name: Seq<char>,
    at: int,
)
    requires
        0 <= at <= providers.len(),
        forall|k: int| 0 <= k < at ==> (#[trigger] providers[k]).0@ != name,
    ensures
        at < providers.len() && providers[at].0@ == name ==> provider_at(providers, name, 0)
            == Some(at),
        at == providers.len() ==> provider_at(providers, name, 0) is None,
{
    lemma_provider_from(providers, name, 0, at);
}

proof fn lemma_provider_from(
    providers: Seq<(String, LlmProviderConfig)>,
    name: Seq<char>,
    from: int,
    at: int,
)
    requires
        0 <= from <= at <= providers.len(),
        forall|k: int| 0 <= k < at ==> (#[trigger] providers[k]).0@ != name,
    ensures
        provider_at(providers, name, from) == provider_at(providers, name, at),
    decreases at - from,
{
    if from < at {
        lemma_provider_from(providers, name, from + 1, at);
    }
}

proof fn lemma_provider_known(
    providers: Seq<(String, LlmProviderConfig)>,
    name: Seq<char>,
    from: int,
)
    requires
        0 <= from,
    ensures
        provider_at(providers, name, from) is Some <==> exists|k: int|
            from <= k < providers.len() && (#[trigger] providers[k]).0@ == name,
        provider_at(providers, name, from) matches Some(i) ==> from <= i < providers.len()
            && providers[i].0@ == name,
    decreases providers.len() - from,
{
    if from < providers.len() && providers[from].0@ != name {
        lemma_provider_known(providers, name, from + 1);
    }
}

/// The providers hold one with the name.
pub open spec fn has_provider(
    providers: Seq<(String, LlmProviderConfig)>,
    name: Seq<char>,
) -> bool {
    exists|k: int| 0 <= k < providers.len() && (#[trigger] providers[k]).0@ == name
}

/// A configuration is without fault exactly where the address of the platform and
/// the path of the store are set, every layer names a provider that is there, the
/// embeddings are set up where vectors are stored, and every provider has a key, an
/// address and a model.
pub proof fn law_what_a_configuration_needs(c: NekoConfig)
    ensures
        fault(c) is None <==> {
            &&& c.websocket.url@.len() > 0
            &&& c.sqlite.path@.len() > 0
            &&& has_provider(c.llm.providers@, c.gate.provider@)
            &&& has_provider(c.llm.providers@, c.llm.council@)
            &&& c.llm.detective matches Some(n) ==> has_provider(c.llm.providers@, n@)
            &&& c.llm.solidify matches Some(n) ==> has_provider(c.llm.providers@, n@)
            &&& c.qdrant.url@.len() > 0 ==> c.embedding.base_url@.len() > 0
                && c.embedding.model@.len() > 0 && c.embedding.api_key@.len() > 0
            &&& forall|i: int|
                0 <= i < c.llm.providers@.len() ==> (#[trigger] c.llm.providers@[i]).1.api_key@.len()
                    > 0 && c.llm.providers@[i].1.base_url@.len() > 0
                    && c.llm.providers@[i].1.model@.len() > 0
        },
{
    let p = c.llm.providers@;
    lemma_provider_known(p, c.gate.provider@, 0);
    lemma_provider_known(p, c.llm.council@, 0);
    if let Some(n) = c.llm.detective {
        lemma_provider_known(p, n@, 0);
    }
    if let Some(n) = c.llm.solidify {
        lemma_provider_known(p, n@, 0);
    }
    lemma_all_sound(p, 0);
}

proof fn lemma_all_sound(providers: Seq<(String, LlmProviderConfig)>, from: int)
    requires
        0 <= from,
    ensures
        providers_fault(providers, from) is None <==> forall|i: int|
            from <= i < providers.len() ==> (#[trigger] providers[i]).1.api_key@.len() > 0
                && providers[i].1.base_url@.len() > 0 && providers[i].1.model@.len() > 0,
    decreases providers.len() - from,
{
    if from < providers.len() {
        lemma_all_sound(providers, from + 1);
    }
}

/// The first fault is named: what is missing, and where.
pub proof fn law_faults_are_named(c: NekoConfig, name: String)
    ensures
        c.websocket.url@.len() == 0 ==> fault(c) == Some("websocket.url is required"@),
        c.websocket.url@.len() > 0 && c.sqlite.path@.len() == 0 ==> fault(c) == Some(
            "sqlite.path is required"@,
        ),
        c.websocket.url@.len() > 0 && c.sqlite.path@.len() > 0 && !has_provider(
            c.llm.providers@,
            c.gate.provider@,
        ) ==> fault(c) == Some("gate provider '"@ + c.gate.provider@ + "' not found"@),
        c.websocket.url@.len() > 0 && c.sqlite.path@.len() > 0 && has_provider(
            c.llm.providers@,
            c.gate.provider@,
        ) && !has_provider(c.llm.providers@, c.llm.council@) ==> fault(c) == Some(
            "council provider '"@ + c.llm.council@ + "' not found"@,
        ),
        c.llm.detective == Some(name) && !has_provider(c.llm.providers@, name@) ==> shared_fault(
            c,
            "detective"@,
            c.llm.detective,
        ) == Some("detective provider '"@ + name@ + "' not found"@),
{
    lemma_provider_known(c.llm.providers@, c.gate.provider@, 0);
    lemma_provider_known(c.llm.providers@, c.llm.council@, 0);
    lemma_provider_known(c.llm.providers@, name@, 0);
    assert("gate"@ + " provider '"@ =~= "gate provider '"@) by {
        reveal_strlit("gate");
        reveal_strlit(" provider '");
        reveal_strlit("gate provider '");
    }
    assert("council"@ + " provider '"@ =~= "council provider '"@) by {
        reveal_strlit("council");
        reveal_strlit(" provider '");
        reveal_strlit("council provider '");
    }
    assert("detective"@ + " provider '"@ =~= "detective provider '"@) by {
        reveal_strlit("detective");
        reveal_strlit(" provider '");
        reveal_strlit("detective provider '");
    }
}

/// A credential of the form `${NAME}` stands for the variable of that name; any other
/// stands for itself.
pub proof fn law_placeholder_names_a_variable(name: Seq<char>, value: Seq<char>)
    ensures
        placeholder("${"@ + name + "}"@) == Some(name),
        value.len() < 3 && value != "${"@ + Seq::<char>::empty() + "}"@ ==> placeholder(value)
            is None,
        value.len() > 0 && value[0] != '$' ==> placeholder(value) is None,
        value.len() > 1 && value[1] != '{' ==> placeholder(value) is None,
        value.len() > 0 && value.last() != '}' ==> placeholder(value) is None,
{
    reveal_strlit("${");
    reveal_strlit("}");
    let v = "${"@ + name + "}"@;
    assert(v.take(2) =~= "${"@);
    let inner = v.skip(2);
    assert(inner =~= name + "}"@);
    assert(inner.skip(inner.len() - 1) =~= "}"@);
    assert(inner.take(inner.len() - 1) =~= name);
    if placeholder(value) is Some {
        assert(value.take(2)[0] == '$' && value.take(2)[1] == '{');
        let rest = value.skip(2);
        assert(rest.skip(rest.len() - 1)[0] == '}');
        assert(rest.last() == value.last());
    }
}

/// A variable that has a value takes the place of the credential that names it.
pub proof fn law_variable_takes_the_place<L: Fn(&str) -> Option<String>>(
    lookup: L,
    name: Seq<char>,
    value: String,
    after: Seq<char>,
)
    requires
        expanded(lookup, "${"@ + name + "}"@, after),
        forall|got: Option<String>| #[trigger] looked_up(lookup, name, got) ==> got == Some(value),
    ensures
        after == value@,
{
    law_placeholder_names_a_variable(name, Seq::empty());
}

/// A layer without a provider of its own has that of the council; a limit and a
/// format are as they are set, and a limit that is not is the default.
pub proof fn law_layers_share_the_provider(
    c: NekoConfig,
    name: Option<String>,
    p: LlmProviderConfig,
    default: u32,
)
    ensures
        name is None ==> c.shared_name(name) == c.llm.council@,
        name matches Some(n) ==> c.shared_name(name) == n@,
        p.max_tokens matches Some(n) ==> p.tokens_or(default) == n,
        p.max_tokens is None ==> p.tokens_or(default) == default,
        format_of(ResponseFormatConfig::Json) == ResponseFormat::JsonObject,
        format_of(ResponseFormatConfig::Text) == ResponseFormat::Text,
{
}

/// Expanding the credentials of a provider leaves the rest of it.
pub proof fn law_only_the_key_is_expanded<L: Fn(&str) -> Option<String>>(
    lookup: L,
    before: (String, LlmProviderConfig),
    after: (String, LlmProviderConfig),
)
    requires
        provider_expanded(lookup, before, after),
    ensures
        after.0@ == before.0@,
        after.1.base_url@ == before.1.base_url@,
        after.1.model@ == before.1.model@,
        after.1.temperature == before.1.temperature,
        after.1.max_tokens == before.1.max_tokens,
        before.1.api_key@.len() > 0 && before.1.api_key@[0] != '$' ==> after.1.api_key@
            == before.1.api_key@,
{
    law_placeholder_names_a_variable(Seq::empty(), before.1.api_key@);
}

} // verus!
