//! The second layer: decides whether the bot takes part, and how.

use vstd::prelude::*;
use vstd::string::*;
use crate::clock::Timestamp;
use crate::council::{context_lines, context_text, ContextQuery};
use crate::error::NekoError;
use crate::ident::{GroupId, UserId};
use crate::json::Json;
use crate::llm::{parse_or_fallback, payload, read_gives, reads_all};
use crate::maps::{state_entries, states_get, states_new, states_put, StateMap};
use crate::number::{integer_text, unsigned_to_text};
use crate::onebot::{text_at, text_is};
use crate::sensory::state_of;
use crate::single::{show_with, shown_as, shows_all, Single};
use crate::store::{found, found_or_none};
use crate::text::{
    begins, contains, has_text, joined, law_occurrence_is_between, lemma_has_trans,
    lemma_joined_has, lemma_occurs_between, same, starts_with, trim, trimmed, words,
};
use crate::types::{
    AffectiveState, ChatMessage, DropReason, EngagementType, EscalationReason, Event,
    GateDecision, LlmMessage, LlmRequest, LlmResponse, LlmRole, ResponseFormat, RuntimeState,
};

verus! {

/// The settings of the layer.
#[derive(Debug)]
pub struct GateConfig {
    /// Longer messages are dropped.
    pub max_message_length: usize,
    /// Messages of up to three times as many words are small talk.
    pub max_ambient_words: usize,
    /// How many messages are looked at side by side.
    pub concurrency_limit: usize,
    /// How messages are classified: `default`, `escalate_all`, or `llm` for a
    /// model.
    pub heuristic: String,
}

impl Default for GateConfig {
    fn default() -> (res: Self)
        ensures
            res.max_message_length == 800,
            res.max_ambient_words == 10,
            res.concurrency_limit == 8,
            res.heuristic@ == "default"@,
    {
        GateConfig {
            max_message_length: 800,
            max_ambient_words: 10,
            concurrency_limit: 8,
            heuristic: "default".to_string(),
        }
    }
}

/// Who the bot is.
#[derive(Debug)]
pub struct BotIdentity {
    /// The QQ id.
    pub qq_id: u64,
    /// The display name.
    pub name: String,
    /// What else the bot is called.
    pub aliases: Vec<String>,
}

/// The segment mentions the user with the id `qq`.
pub open spec fn mentions(seg: Json, qq: Seq<char>) -> bool {
    text_at(seg, "type"@) == Some("at"@) && match seg.at("data"@) {
        Some(data) => text_at(data, "qq"@) == Some(qq),
        None => false,
    }
}

/// The payload mentions the user with the id `qq`.
pub open spec fn payload_mentions(payload: Json, qq: Seq<char>) -> bool {
    match payload.at("message"@) {
        Some(Json::Array(segments)) => exists|i: int|
            0 <= i < segments@.len() && mentions(#[trigger] segments@[i], qq),
        _ => false,
    }
}

impl BotIdentity {
    /// The text holds the name or an alias.
    pub open spec fn named_in(self, text: Seq<char>) -> bool {
        ||| self.name@.len() > 0 && has_text(text, self.name@)
        ||| exists|i: int|
            0 <= i < self.aliases@.len() && (#[trigger] self.aliases@[i])@.len() > 0 && has_text(
                text,
                self.aliases@[i]@,
            )
    }

    /// The message answers another, mentions the bot, or holds its name.
    pub open spec fn addressed(self, msg: ChatMessage) -> bool {
        ||| msg.reply_to is Some
        ||| payload_mentions(msg.raw_payload, integer_text(self.qq_id as int))
        ||| self.named_in(trimmed(msg.content@))
    }

    /// Whether the payload mentions the bot.
    fn is_mentioned(&self, payload: &Json) -> (res: bool)
        ensures
            res == payload_mentions(*payload, integer_text(self.qq_id as int)),
    {
        let qq: String = unsigned_to_text(self.qq_id as u128);
        let message: &Json = match payload.get("message") {
            Some(m) => m,
            None => {
                return false;
            },
        };
        let segments: &Vec<Json> = match message.as_array() {
            Some(v) => v,
            None => {
                return false;
            },
        };
        let mut i: usize = 0;
        while i < segments.len()
            invariant
                0 <= i <= segments@.len(),
                qq@ == integer_text(self.qq_id as int),
                payload.at("message"@) == Some(*message),
                message.elements() == Some(segments@),
                forall|k: int| 0 <= k < i ==> !mentions(#[trigger] segments@[k], qq@),
            decreases segments@.len() - i,
        {
            if text_is(&segments[i], "type", "at") {
                if let Some(data) = segments[i].get("data") {
                    if text_is(data, "qq", qq.as_str()) {
                        assert(mentions(segments@[i as int], qq@));
                        return true;
                    }
                }
            }
            i = i + 1;
        }
        false
    }

    /// Whether the text holds the name or an alias.
    fn is_named_in(&self, text: &str) -> (res: bool)
        ensures
            res == self.named_in(text@),
    {
        if self.name.as_str().unicode_len() > 0 && contains(text, self.name.as_str()) {
            return true;
        }
        let mut i: usize = 0;
        while i < self.aliases.len()
            invariant
                0 <= i <= self.aliases@.len(),
                forall|k: int|
                    0 <= k < i ==> !((#[trigger] self.aliases@[k])@.len() > 0 && has_text(
                        text@,
                        self.aliases@[k]@,
                    )),
            decreases self.aliases@.len() - i,
        {
            let alias: &String = &self.aliases[i];
            if alias.as_str().unicode_len() > 0 && contains(text, alias.as_str()) {
                assert(self.aliases@[i as int]@.len() > 0 && has_text(
                    text@,
                    self.aliases@[i as int]@,
                ));
                return true;
            }
            i = i + 1;
        }
        false
    }

    /// Whether the message is meant for the bot.
    pub fn is_addressed_to_me(&self, msg: &ChatMessage) -> (res: bool)
        ensures
            res == self.addressed(*msg),
    {
        if msg.reply_to.is_some() {
            return true;
        }
        if self.is_mentioned(&msg.raw_payload) {
            return true;
        }
        self.is_named_in(trim(msg.content.as_str()).as_str())
    }
}

/// What the second layer makes of a message.
#[derive(Debug, PartialEq)]
pub enum GateClassification {
    /// Drop it without reply.
    Drop(DropReason),
    /// Hand it to the council.
    Escalate(EngagementType),
}

/// A way to decide whether and how the bot takes part.
pub trait GateHeuristic {
    /// `res` is what becomes of `msg`.
    spec fn classifies(
        &self,
        msg: ChatMessage,
        config: GateConfig,
        self_id: BotIdentity,
        res: GateClassification,
    ) -> bool;

    /// Classifies a message.
    fn classify(&self, msg: &ChatMessage, config: &GateConfig, self_id: &BotIdentity) -> (res:
        GateClassification)
        ensures
            self.classifies(*msg, *config, *self_id, res),
    ;
}

/// The text is a command.
pub open spec fn is_command(text: Seq<char>) -> bool {
    begins(text, "/"@) || begins(text, "!"@)
}

/// The text holds a link.
pub open spec fn has_link(text: Seq<char>) -> bool {
    has_text(text, "http://"@) || has_text(text, "https://"@)
}

/// Drops commands, links and long messages; takes what is meant for the bot as
/// personal, and short small talk as a chance to join in.
#[derive(Debug, Clone, Copy)]
pub struct DefaultHeuristic;

impl GateHeuristic for DefaultHeuristic {
    open spec fn classifies(
        &self,
        msg: ChatMessage,
        config: GateConfig,
        self_id: BotIdentity,
        res: GateClassification,
    ) -> bool {
        if is_command(msg.content@) {
            res matches GateClassification::Drop(DropReason::Other(s)) && s@ == "command"@
        } else if has_link(msg.content@) {
            res == GateClassification::Drop(DropReason::Spam)
        } else if msg.content@.len() > config.max_message_length {
            res == GateClassification::Drop(DropReason::TooLong)
        } else if self_id.addressed(msg) {
            res == GateClassification::Escalate(EngagementType::PersonalReply)
        } else if words(msg.content@).len() <= config.max_ambient_words * 3 {
            res == GateClassification::Escalate(EngagementType::AmbientJoin)
        } else {
            res == GateClassification::Escalate(EngagementType::PersonalReply)
        }
    }

    fn classify(&self, msg: &ChatMessage, config: &GateConfig, self_id: &BotIdentity) -> (res:
        GateClassification) {
        let text: &str = msg.content.as_str();
        if starts_with(text, "/") || starts_with(text, "!") {
            return GateClassification::Drop(DropReason::Other("command".to_string()));
        }
        if contains(text, "http://") || contains(text, "https://") {
            return GateClassification::Drop(DropReason::Spam);
        }
        if msg.char_count() > config.max_message_length {
            return GateClassification::Drop(DropReason::TooLong);
        }
        if self_id.is_addressed_to_me(msg) {
            return GateClassification::Escalate(EngagementType::PersonalReply);
        }
        if msg.word_count() as u128 <= config.max_ambient_words as u128 * 3 {
            return GateClassification::Escalate(EngagementType::AmbientJoin);
        }
        GateClassification::Escalate(EngagementType::PersonalReply)
    }
}

/// Takes every message as personal.
#[derive(Debug, Clone, Copy)]
pub struct EscalateAllHeuristic;

impl GateHeuristic for EscalateAllHeuristic {
    open spec fn classifies(
        &self,
        msg: ChatMessage,
        config: GateConfig,
        self_id: BotIdentity,
        res: GateClassification,
    ) -> bool {
        res == GateClassification::Escalate(EngagementType::PersonalReply)
    }

    fn classify(&self, _msg: &ChatMessage, _config: &GateConfig, _self_id: &BotIdentity) -> (res:
        GateClassification) {
        GateClassification::Escalate(EngagementType::PersonalReply)
    }
}

/// A heuristic that was chosen by its name.
#[derive(Debug, Clone, Copy)]
pub enum NamedHeuristic {
    Default(DefaultHeuristic),
    EscalateAll(EscalateAllHeuristic),
}

impl GateHeuristic for NamedHeuristic {
    open spec fn classifies(
        &self,
        msg: ChatMessage,
        config: GateConfig,
        self_id: BotIdentity,
        res: GateClassification,
    ) -> bool {
        match *self {
            NamedHeuristic::Default(h) => h.classifies(msg, config, self_id, res),
            NamedHeuristic::EscalateAll(h) => h.classifies(msg, config, self_id, res),
        }
    }

    fn classify(&self, msg: &ChatMessage, config: &GateConfig, self_id: &BotIdentity) -> (res:
        GateClassification) {
        match self {
            NamedHeuristic::Default(h) => h.classify(msg, config, self_id),
            NamedHeuristic::EscalateAll(h) => h.classify(msg, config, self_id),
        }
    }
}

/// The heuristic that goes by a name; any other name means the default one,
/// which also stands in for a model that does not answer.
pub fn heuristic_from_name(name: &str) -> (res: NamedHeuristic)
    ensures
        res == if name@ == "escalate_all"@ {
            NamedHeuristic::EscalateAll(EscalateAllHeuristic)
        } else {
            NamedHeuristic::Default(DefaultHeuristic)
        },
{
    if same(name, "escalate_all") {
        NamedHeuristic::EscalateAll(EscalateAllHeuristic)
    } else {
        NamedHeuristic::Default(DefaultHeuristic)
    }
}

/// The heuristic that goes by a name.
pub open spec fn heuristic_named(name: Seq<char>) -> NamedHeuristic {
    if name == "escalate_all"@ {
        NamedHeuristic::EscalateAll(EscalateAllHeuristic)
    } else {
        NamedHeuristic::Default(DefaultHeuristic)
    }
}

/// The first part of the prompt for a short reply.
pub const COZY_MESSAGE: &'static str = "你是一只高冷的猫娘，正在 QQ 群里潜水。群友说：\"";

/// The second part of the prompt for a short reply.
pub const COZY_LENGTH: &'static str = "\"\n\n请用不超过 ";

/// The last part of the prompt for a short reply.
pub const COZY_REST: &'static str =
    " 个字回复，语气简短、傲娇、可爱。只输出回复内容，不要解释、不要加引号。";

/// The first part of the prompt for a classification.
pub const CLASSIFY_MESSAGE: &'static str =
    "判断下面的 QQ 群消息属于哪一类。只输出一个单词：COZY（普通闲聊，适合简短回复）、DROP（垃圾/广告/无意义）、ESCALATE（冲突/烂梗/需要上下文）。\n\n消息：\"";

/// Builds the prompt for a reply of at most `max_words` words, like a slightly
/// aloof cat-girl.
pub fn cozy_prompt(message: &str, max_words: usize) -> (res: String)
    ensures
        res@ == COZY_MESSAGE@ + message@ + COZY_LENGTH@ + integer_text(max_words as int)
            + COZY_REST@,
{
    let mut prompt: String = COZY_MESSAGE.to_string();
    prompt.append(message);
    prompt.append(COZY_LENGTH);
    prompt.append(unsigned_to_text(max_words as u128).as_str());
    prompt.append(COZY_REST);
    prompt
}

/// Builds the prompt that asks whether a message is small talk.
pub fn classify_prompt(message: &str) -> (res: String)
    ensures
        res@ == CLASSIFY_MESSAGE@ + message@ + "\""@,
{
    let mut prompt: String = CLASSIFY_MESSAGE.to_string();
    prompt.append(message);
    prompt.append("\"");
    prompt
}

/// Asks a model whether and how the bot takes part.
#[derive(Debug, Clone, Copy, PartialEq, Eq, Structural)]
pub struct LlmGateClassifier {
    /// How many of the latest messages of the group the model is told.
    pub context_messages: usize,
    pub llm_temperature: Single,
    pub llm_max_tokens: u32,
}

/// What a model states about a message.
#[derive(Debug)]
pub struct GateAnswerJson {
    /// `drop` or `escalate`.
    pub action: String,
    /// `personal_reply` or `ambient_join`, where the message is handed on.
    pub engagement_type: String,
    /// How sure the model is.
    pub confidence: Single,
    pub reasoning: String,
}

/// The prompt of the model up to the name of the bot.
pub const GATE_NAME: &'static str =
    "你是 QQ 群聊的参与判断器。请根据上下文判断机器人现在插话是否自然，以及以何种身份参与。\n\n机器人名字：";

/// The prompt of the model between the name and the energy.
pub const GATE_ENERGY: &'static str = "\n精力值：";

/// The prompt of the model between the energy and the favorability.
pub const GATE_FAVOR: &'static str = "\n好感度：";

/// The prompt of the model between the favorability and the earlier messages.
pub const GATE_CONTEXT: &'static str = "\n\n最近上下文：\n";

/// The prompt of the model between the earlier messages and the message.
pub const GATE_MESSAGE: &'static str = "\n\n当前消息：\n";

/// The rest of the prompt of the model.
pub const GATE_FORMAT: &'static str = "\n\
     \n\
     只输出 JSON，不要解释。JSON 格式如下：\n\
     {\n\
     \"action\": \"drop\" | \"escalate\",\n\
     \"engagement_type\": \"personal_reply\" | \"ambient_join\",\n\
     \"confidence\": 0.8,\n\
     \"reasoning\": \"一句话理由\"\n\
     }";

/// The prompt of the model, with the energy and the favorability written as
/// given.
pub open spec fn gate_prompt(
    msg: ChatMessage,
    context: Seq<ChatMessage>,
    name: Seq<char>,
    energy: Seq<char>,
    favor: Seq<char>,
) -> Seq<char> {
    GATE_NAME@ + name + GATE_ENERGY@ + energy + GATE_FAVOR@ + favor + GATE_CONTEXT@
        + context_lines(context) + GATE_MESSAGE@ + msg.nickname@ + ": "@ + msg.content@
        + GATE_FORMAT@
}

/// The message is a command, holds a link or is too long: it is dropped whatever
/// a model would say.
pub open spec fn ruled_out(msg: ChatMessage, config: GateConfig) -> bool {
    is_command(msg.content@) || has_link(msg.content@) || msg.content@.len()
        > config.max_message_length
}

/// Whether a message is dropped whatever a model would say.
fn is_ruled_out(msg: &ChatMessage, config: &GateConfig) -> (res: bool)
    ensures
        res == ruled_out(*msg, *config),
{
    let text: &str = msg.content.as_str();
    starts_with(text, "/") || starts_with(text, "!") || contains(text, "http://") || contains(
        text,
        "https://",
    ) || msg.char_count() > config.max_message_length
}

/// The query asks for the `limit` latest messages of the group of `msg` from
/// before `now`.
pub open spec fn asks_group(
    query: ContextQuery,
    msg: ChatMessage,
    limit: usize,
    now: Timestamp,
) -> bool {
    &&& query.group_id@ == msg.group_id@
    &&& query.user_id is None
    &&& query.before == now
    &&& query.limit == limit
}

/// What the statement `j` makes of a message: nothing, where it names no action
/// or no way to take part.
pub open spec fn stated(j: GateAnswerJson, res: Option<GateClassification>) -> bool {
    if j.action@ == "drop"@ {
        res matches Some(GateClassification::Drop(DropReason::Other(s))) && s@ == j.reasoning@
    } else if j.action@ == "escalate"@ && j.engagement_type@ == "personal_reply"@ {
        res == Some(GateClassification::Escalate(EngagementType::PersonalReply))
    } else if j.action@ == "escalate"@ && j.engagement_type@ == "ambient_join"@ {
        res == Some(GateClassification::Escalate(EngagementType::AmbientJoin))
    } else {
        res is None
    }
}

/// What a model's statement makes of a message.
pub fn stated_classification(j: GateAnswerJson) -> (res: Option<GateClassification>)
    ensures
        stated(j, res),
{
    if same(j.action.as_str(), "drop") {
        return Some(GateClassification::Drop(DropReason::Other(j.reasoning)));
    }
    if same(j.action.as_str(), "escalate") {
        if same(j.engagement_type.as_str(), "personal_reply") {
            return Some(GateClassification::Escalate(EngagementType::PersonalReply));
        }
        if same(j.engagement_type.as_str(), "ambient_join") {
            return Some(GateClassification::Escalate(EngagementType::AmbientJoin));
        }
    }
    None
}

/// `c` is what becomes of `msg` after a model's answer, read by `read`: what the
/// answer states, or what the default heuristic makes of the message, where
/// there is no answer or it cannot be understood.
pub open spec fn model_classifies<F: Fn(&str) -> Result<GateAnswerJson, String>>(
    read: F,
    msg: ChatMessage,
    config: GateConfig,
    self_id: BotIdentity,
    answer: Result<LlmResponse, NekoError>,
    c: GateClassification,
) -> bool {
    match answer {
        Err(_) => DefaultHeuristic.classifies(msg, config, self_id, c),
        Ok(resp) => exists|got: Result<GateAnswerJson, String>|
            {
                &&& #[trigger] read_gives(read, payload(resp.content@), got)
                &&& match got {
                    Ok(j) => stated(j, Some(c)) || (stated(j, None)
                        && DefaultHeuristic.classifies(msg, config, self_id, c)),
                    Err(_) => DefaultHeuristic.classifies(msg, config, self_id, c),
                }
            },
    }
}

impl LlmGateClassifier {
    /// Which earlier messages to look up: the latest of the group.
    pub fn context_query(&self, msg: &ChatMessage) -> (res: ContextQuery)
        ensures
            exists|now: Timestamp| #[trigger]
                now.valid() && asks_group(res, *msg, self.context_messages, now),
    {
        let now: Timestamp = Timestamp::now();
        assert(now.valid());
        self.context_query_at(msg, now)
    }

    /// Which messages from before `now` to look up: the latest of the group.
    pub fn context_query_at(&self, msg: &ChatMessage, now: Timestamp) -> (res: ContextQuery)
        ensures
            asks_group(res, *msg, self.context_messages, now),
    {
        ContextQuery {
            group_id: msg.group_id.clone(),
            user_id: None,
            before: now,
            limit: self.context_messages,
        }
    }

    /// The request to the model for a message, given what became of the lookup of
    /// earlier ones: where it failed, there are none. Numbers are written by
    /// `show`.
    pub fn request<G: Fn(Single) -> String>(
        &self,
        msg: &ChatMessage,
        state: AffectiveState,
        lookup: Result<Vec<ChatMessage>, NekoError>,
        self_id: &BotIdentity,
        show: &G,
    ) -> (res: LlmRequest)
        requires
            shows_all(*show),
        ensures
            res.messages@.len() == 1,
            res.messages@[0].role == LlmRole::User,
            exists|energy: Seq<char>, favor: Seq<char>|
                {
                    &&& #[trigger] shown_as(*show, state.energy, energy)
                    &&& #[trigger] shown_as(*show, state.favorability, favor)
                    &&& res.messages@[0].content@ == gate_prompt(
                        *msg,
                        found(lookup),
                        self_id.name@,
                        energy,
                        favor,
                    )
                },
            res.temperature == self.llm_temperature,
            res.max_tokens == Some(self.llm_max_tokens),
            res.response_format == Some(ResponseFormat::JsonObject),
    {
        let energy: String = show_with(show, state.energy);
        let favor: String = show_with(show, state.favorability);
        let context: Vec<ChatMessage> = found_or_none(lookup);
        let mut prompt: String = GATE_NAME.to_string();
        prompt.append(self_id.name.as_str());
        prompt.append(GATE_ENERGY);
        prompt.append(energy.as_str());
        prompt.append(GATE_FAVOR);
        prompt.append(favor.as_str());
        prompt.append(GATE_CONTEXT);
        prompt.append(context_text(&context).as_str());
        prompt.append(GATE_MESSAGE);
        prompt.append(msg.nickname.as_str());
        prompt.append(": ");
        prompt.append(msg.content.as_str());
        prompt.append(GATE_FORMAT);
        proof {
            assert(shown_as(*show, state.energy, energy@));
            assert(shown_as(*show, state.favorability, favor@));
            assert(prompt@ == gate_prompt(*msg, context@, self_id.name@, energy@, favor@));
        }
        let mut messages: Vec<LlmMessage> = Vec::new();
        messages.push(LlmMessage { role: LlmRole::User, content: prompt });
        LlmRequest {
            messages,
            temperature: self.llm_temperature,
            max_tokens: Some(self.llm_max_tokens),
            response_format: Some(ResponseFormat::JsonObject),
        }
    }
}

/// What the second layer does about an event.
#[derive(Debug)]
pub enum GateTask {
    /// Send the events.
    Send(Vec<Event>),
    /// Ask a model about the message, whose sender is in the given state.
    Ask(ChatMessage, AffectiveState),
}

/// The events that follow a classification of `msg`: the decision, and the
/// escalation where the message is handed on.
pub open spec fn gate_events(
    msg: ChatMessage,
    state: AffectiveState,
    c: GateClassification,
    events: Seq<Event>,
) -> bool {
    match c {
        GateClassification::Drop(reason) => events.len() == 1 && match events[0] {
            Event::GateDecision(GateDecision::Drop(r)) => same_reason(r, reason),
            _ => false,
        },
        GateClassification::Escalate(engagement) => {
            &&& events.len() == 2
            &&& match events[0] {
                Event::GateDecision(GateDecision::Escalate(r, e)) => r is NeedsContext && e
                    == engagement,
                _ => false,
            }
            &&& match events[1] {
                Event::Escalation(r, m, s, e) => r is NeedsContext && m == msg && s == state && e
                    == engagement,
                _ => false,
            }
        },
    }
}

/// The reasons say the same.
pub open spec fn same_reason(a: DropReason, b: DropReason) -> bool {
    match (a, b) {
        (DropReason::TooLong, DropReason::TooLong) => true,
        (DropReason::Spam, DropReason::Spam) => true,
        (DropReason::BannedUser, DropReason::BannedUser) => true,
        (DropReason::Other(x), DropReason::Other(y)) => x@ == y@,
        _ => false,
    }
}

/// The reason for which a message is handed on.
fn reason_for(_engagement_type: EngagementType) -> (res: EscalationReason)
    ensures
        res is NeedsContext,
{
    EscalationReason::NeedsContext
}

/// Classifies messages, and knows the states of their senders.
pub struct GateActor {
    config: GateConfig,
    self_id: BotIdentity,
    states: StateMap,
    heuristic: NamedHeuristic,
    state: Option<RuntimeState>,
}

impl GateActor {
    /// The settings.
    pub closed spec fn settings(self) -> GateConfig {
        self.config
    }

    /// Who the bot is.
    pub closed spec fn identity(self) -> BotIdentity {
        self.self_id
    }

    /// The states by group and user.
    pub closed spec fn states_view(self) -> Map<(Seq<char>, Seq<char>), AffectiveState> {
        state_entries(self.states)
    }

    /// The heuristic in use.
    pub closed spec fn strategy(self) -> NamedHeuristic {
        self.heuristic
    }

    /// The counters, where they are kept.
    pub closed spec fn counters(self) -> Option<RuntimeState> {
        self.state
    }

    /// Messages are classified by a model.
    pub open spec fn asks_model(self) -> bool {
        self.settings().heuristic@ == "llm"@
    }

    /// A second layer that keeps no counters.
    pub fn new(config: GateConfig, self_id: BotIdentity) -> (res: Self)
        ensures
            res.settings() == config,
            res.identity() == self_id,
            res.strategy() == heuristic_named(config.heuristic@),
            res.counters() is None,
            res.states_view() == Map::<(Seq<char>, Seq<char>), AffectiveState>::empty(),
    {
        GateActor::new_with_state(config, self_id, None)
    }

    /// A second layer that counts the messages it sees, where counters are given.
    pub fn new_with_state(
        config: GateConfig,
        self_id: BotIdentity,
        state: Option<RuntimeState>,
    ) -> (res: Self)
        ensures
            res.settings() == config,
            res.identity() == self_id,
            res.strategy() == heuristic_named(config.heuristic@),
            res.counters() == state,
            res.states_view() == Map::<(Seq<char>, Seq<char>), AffectiveState>::empty(),
    {
        let heuristic: NamedHeuristic = heuristic_from_name(config.heuristic.as_str());
        let res: Self = GateActor { config, self_id, states: states_new(), heuristic, state };
        assert(res.states_view() =~= Map::<(Seq<char>, Seq<char>), AffectiveState>::empty());
        res
    }

    /// The number of messages seen, where it is kept.
    pub fn messages_received(&self) -> (res: Option<u64>)
        ensures
            res == match self.counters() {
                Some(s) => Some(s.messages_received),
                None => None,
            },
    {
        match &self.state {
            Some(s) => Some(s.messages_received),
            None => None,
        }
    }

    /// Decides on a message whose sender is in the given state.
    pub fn handle_message(&self, msg: &ChatMessage, state: AffectiveState) -> (res: Vec<Event>)
        ensures
            exists|c: GateClassification|
                {
                    &&& #[trigger] self.strategy().classifies(
                        *msg,
                        self.settings(),
                        self.identity(),
                        c,
                    )
                    &&& gate_events(*msg, state, c, res@)
                },
    {
        let classification: GateClassification = self.heuristic.classify(
            msg,
            &self.config,
            &self.self_id,
        );
        assert(self.strategy().classifies(
            *msg,
            self.settings(),
            self.identity(),
            classification,
        ));
        self.announce(msg, state, classification)
    }

    /// The events that follow a classification of a message.
    fn announce(&self, msg: &ChatMessage, state: AffectiveState, c: GateClassification) -> (res: Vec<
        Event,
    >)
        ensures
            gate_events(*msg, state, c, res@),
    {
        let mut events: Vec<Event> = Vec::new();
        match c {
            GateClassification::Drop(reason) => {
                events.push(Event::GateDecision(GateDecision::Drop(reason)));
            },
            GateClassification::Escalate(engagement) => {
                events.push(
                    Event::GateDecision(GateDecision::Escalate(reason_for(engagement), engagement)),
                );
                events.push(
                    Event::Escalation(reason_for(engagement), msg.clone(), state, engagement),
                );
            },
        }
        events
    }

    /// Who the bot is.
    pub fn bot(&self) -> (res: &BotIdentity)
        ensures
            *res == self.identity(),
    {
        &self.self_id
    }

    /// Decides on a message after a model's answer.
    pub fn on_model_answer<F: Fn(&str) -> Result<GateAnswerJson, String>>(
        &self,
        msg: &ChatMessage,
        state: AffectiveState,
        answer: Result<LlmResponse, NekoError>,
        read: &F,
    ) -> (res: Vec<Event>)
        requires
            reads_all(*read),
        ensures
            exists|c: GateClassification|
                {
                    &&& #[trigger] model_classifies(
                        *read,
                        *msg,
                        self.settings(),
                        self.identity(),
                        answer,
                        c,
                    )
                    &&& gate_events(*msg, state, c, res@)
                },
    {
        let said: Option<GateClassification> = match &answer {
            Ok(resp) => match parse_or_fallback(resp.content.as_str(), read) {
                Ok(j) => stated_classification(j),
                Err(_) => None,
            },
            Err(_) => None,
        };
        let c: GateClassification = match said {
            Some(c) => c,
            None => DefaultHeuristic.classify(msg, &self.config, &self.self_id),
        };
        assert(model_classifies(*read, *msg, self.settings(), self.identity(), answer, c));
        self.announce(msg, state, c)
    }

    /// Takes in an event. A message is counted and decided on, unless a model is
    /// to be asked; a new state is taken up, and anything else is ignored.
    pub fn handle_event(&mut self, event: Event) -> (res: GateTask)
        ensures
            gate_step(*old(self), event, *final(self), res),
    {
        match event {
            Event::IncomingMessage(msg) => {
                let counted: Option<RuntimeState> = match &self.state {
                    Some(s) => Some(
                        RuntimeState {
                            started_at: s.started_at,
                            messages_received: s.messages_received.wrapping_add(1),
                            replies_sent: s.replies_sent,
                            connected: s.connected,
                        },
                    ),
                    None => None,
                };
                self.state = counted;
                let key: (String, String) = (msg.group_id.clone(), msg.sender.clone());
                let state: AffectiveState = match states_get(&self.states, &key) {
                    Some(s) => s,
                    None => AffectiveState::default(),
                };
                if same(self.config.heuristic.as_str(), "llm") && !is_ruled_out(
                    &msg,
                    &self.config,
                ) {
                    return GateTask::Ask(msg, state);
                }
                let events: Vec<Event> = self.handle_message(&msg, state);
                proof {
                    let c = choose|c: GateClassification|
                        {
                            &&& #[trigger] self.strategy().classifies(
                                msg,
                                self.settings(),
                                self.identity(),
                                c,
                            )
                            &&& gate_events(msg, state, c, events@)
                        };
                    assert(old(self).strategy().classifies(
                        msg,
                        old(self).settings(),
                        old(self).identity(),
                        c,
                    ));
                }
                GateTask::Send(events)
            },
            Event::AffectiveUpdated(group_id, user_id, state) => {
                states_put(&mut self.states, (group_id, user_id), state);
                GateTask::Send(Vec::new())
            },
            _ => GateTask::Send(Vec::new()),
        }
    }
}

/// The counters after one more message.
pub open spec fn counted_in(s: RuntimeState) -> RuntimeState {
    RuntimeState { messages_received: s.messages_received.wrapping_add(1), ..s }
}

/// The second layer took in `event`, with `task` to be done about it.
pub open spec fn gate_step(
    before: GateActor,
    event: Event,
    after: GateActor,
    task: GateTask,
) -> bool {
    &&& after.settings() == before.settings()
    &&& after.identity() == before.identity()
    &&& after.strategy() == before.strategy()
    &&& match event {
        Event::IncomingMessage(msg) => {
            &&& after.states_view() == before.states_view()
            &&& after.counters() == match before.counters() {
                Some(s) => Some(counted_in(s)),
                None => None,
            }
            &&& decides(
                before,
                msg,
                state_of(before.states_view(), (msg.group_id@, msg.sender@)),
                task,
            )
        },
        Event::AffectiveUpdated(group_id, user_id, state) => {
            &&& after.states_view() == before.states_view().insert((group_id@, user_id@), state)
            &&& after.counters() == before.counters()
            &&& task matches GateTask::Send(out) && out@.len() == 0
        },
        _ => {
            &&& after.states_view() == before.states_view()
            &&& after.counters() == before.counters()
            &&& task matches GateTask::Send(out) && out@.len() == 0
        },
    }
}

/// `task` is what is to be done about the message `msg`, whose sender is in the
/// given state: where a model classifies, and no rule has the message dropped,
/// it is asked; otherwise the heuristic decides.
pub open spec fn decides(
    actor: GateActor,
    msg: ChatMessage,
    state: AffectiveState,
    task: GateTask,
) -> bool {
    if actor.asks_model() && !ruled_out(msg, actor.settings()) {
        task == GateTask::Ask(msg, state)
    } else {
        task matches GateTask::Send(out) && exists|c: GateClassification|
            {
                &&& #[trigger] actor.strategy().classifies(
                    msg,
                    actor.settings(),
                    actor.identity(),
                    c,
                )
                &&& gate_events(msg, state, c, out@)
            }
    }
}

/// The second layer only decides and hands on: nothing that it sends, by itself
/// or after a classification by a model, is a reply.
pub proof fn law_gate_never_replies(
    before: GateActor,
    event: Event,
    after: GateActor,
    sent: Vec<Event>,
    msg: ChatMessage,
    state: AffectiveState,
    c: GateClassification,
    announced: Seq<Event>,
)
    requires
        gate_step(before, event, after, GateTask::Send(sent)),
        gate_events(msg, state, c, announced),
    ensures
        forall|i: int|
            0 <= i < sent@.len() ==> (#[trigger] sent@[i]) is GateDecision
                || sent@[i] is Escalation,
        forall|i: int|
            0 <= i < announced.len() ==> (#[trigger] announced[i]) is GateDecision
                || announced[i] is Escalation,
{
}

/// A command, a link or a message that is too long is dropped without asking a
/// model.
pub proof fn law_rules_come_before_model(
    before: GateActor,
    msg: ChatMessage,
    after: GateActor,
    task: GateTask,
)
    requires
        gate_step(before, Event::IncomingMessage(msg), after, task),
        before.asks_model(),
        before.strategy() == heuristic_named(before.settings().heuristic@),
        ruled_out(msg, before.settings()),
    ensures
        task matches GateTask::Send(out) && out@.len() == 1 && (out@[0] matches Event::GateDecision(
            GateDecision::Drop(_),
        )),
{
    reveal_strlit("llm");
    reveal_strlit("escalate_all");
    assert("llm"@.len() != "escalate_all"@.len());
}

/// A state that was taken up is the state with which the next message of its
/// user is handed on, or put to a model.
pub proof fn law_state_reaches_escalation(
    first: GateActor,
    group: GroupId,
    user: UserId,
    state: AffectiveState,
    second: GateActor,
    none: GateTask,
    msg: ChatMessage,
    third: GateActor,
    task: GateTask,
)
    requires
        gate_step(first, Event::AffectiveUpdated(group, user, state), second, none),
        gate_step(second, Event::IncomingMessage(msg), third, task),
        msg.group_id@ == group@,
        msg.sender@ == user@,
    ensures
        match task {
            GateTask::Send(out) => out@.len() == 2 ==> (out@[1] matches Event::Escalation(_, m, s, _)
                && m == msg && s == state),
            GateTask::Ask(m, s) => m == msg && s == state,
        },
{
}

/// What is meant for the bot and is neither a command, a link nor too long is
/// taken as personal; what is meant for nobody is never taken as personal
/// while it is short.
pub proof fn law_addressed_is_personal(
    msg: ChatMessage,
    config: GateConfig,
    self_id: BotIdentity,
    c: GateClassification,
)
    requires
        DefaultHeuristic.classifies(msg, config, self_id, c),
        !is_command(msg.content@),
        !has_link(msg.content@),
        msg.content@.len() <= config.max_message_length,
    ensures
        self_id.addressed(msg) ==> c == GateClassification::Escalate(
            EngagementType::PersonalReply,
        ),
        !self_id.addressed(msg) ==> (c == GateClassification::Escalate(EngagementType::AmbientJoin)
            <==> words(msg.content@).len() <= config.max_ambient_words * 3),
{
}

/// A text with a link somewhere in it is dropped as spam, whatever stands before
/// and behind the link, and whoever is meant, unless it is a command; no model is
/// asked about it.
pub proof fn law_links_are_spam(
    lead: Seq<char>,
    tail: Seq<char>,
    msg: ChatMessage,
    config: GateConfig,
    self_id: BotIdentity,
    c: GateClassification,
    before: GateActor,
    after: GateActor,
    task: GateTask,
)
    requires
        msg.content@ == lead + "http://"@ + tail || msg.content@ == lead + "https://"@ + tail,
        msg.content@[0] != '/' && msg.content@[0] != '!',
        DefaultHeuristic.classifies(msg, config, self_id, c),
        gate_step(before, Event::IncomingMessage(msg), after, task),
        before.strategy() == NamedHeuristic::Default(DefaultHeuristic),
    ensures
        c == GateClassification::Drop(DropReason::Spam),
        task matches GateTask::Send(out) && out@.len() == 1 && (out@[0] matches Event::GateDecision(
            GateDecision::Drop(DropReason::Spam),
        )),
{
    let s = msg.content@;
    reveal_strlit("/");
    reveal_strlit("!");
    if begins(s, "/"@) {
        assert(s.take(1)[0] == '/');
    }
    if begins(s, "!"@) {
        assert(s.take(1)[0] == '!');
    }
    if s == lead + "http://"@ + tail {
        lemma_occurs_between(lead, "http://"@, tail);
    } else {
        lemma_occurs_between(lead, "https://"@, tail);
    }
}

/// A text that begins with a slash or an exclamation mark is dropped as a
/// command, whatever else it holds; no model is asked about it.
pub proof fn law_commands_are_dropped(
    msg: ChatMessage,
    config: GateConfig,
    self_id: BotIdentity,
    c: GateClassification,
    before: GateActor,
    after: GateActor,
    task: GateTask,
)
    requires
        msg.content@.len() > 0,
        msg.content@[0] == '/' || msg.content@[0] == '!',
        DefaultHeuristic.classifies(msg, config, self_id, c),
        gate_step(before, Event::IncomingMessage(msg), after, task),
        before.strategy() == NamedHeuristic::Default(DefaultHeuristic),
    ensures
        c matches GateClassification::Drop(DropReason::Other(s)) && s@ == "command"@,
        task matches GateTask::Send(out) && out@.len() == 1 && (out@[0] matches Event::GateDecision(
            GateDecision::Drop(DropReason::Other(_)),
        )),
{
    lemma_command_begin(msg.content@);
}

proof fn lemma_command_begin(s: Seq<char>)
    ensures
        is_command(s) <==> s.len() > 0 && (s[0] == '/' || s[0] == '!'),
{
    reveal_strlit("/");
    reveal_strlit("!");
    if begins(s, "/"@) {
        assert(s.take(1)[0] == '/');
    }
    if begins(s, "!"@) {
        assert(s.take(1)[0] == '!');
    }
    if s.len() > 0 && s[0] == '/' {
        assert(s.take(1) =~= "/"@);
    }
    if s.len() > 0 && s[0] == '!' {
        assert(s.take(1) =~= "!"@);
    }
}

/// The default heuristic drops nothing but commands, links and long messages: a
/// message that is dropped begins with a mark of a command, holds a link, or has
/// more characters than are allowed. A long message that is neither of the first
/// two is dropped as such.
pub proof fn law_nothing_else_is_dropped(
    msg: ChatMessage,
    config: GateConfig,
    self_id: BotIdentity,
    c: GateClassification,
)
    requires
        DefaultHeuristic.classifies(msg, config, self_id, c),
    ensures
        c is Drop <==> {
            ||| msg.content@.len() > 0 && (msg.content@[0] == '/' || msg.content@[0] == '!')
            ||| exists|lead: Seq<char>, tail: Seq<char>|
                msg.content@ == #[trigger] (lead + "http://"@ + tail)
            ||| exists|lead: Seq<char>, tail: Seq<char>|
                msg.content@ == #[trigger] (lead + "https://"@ + tail)
            ||| msg.content@.len() > config.max_message_length
        },
        c == GateClassification::Drop(DropReason::TooLong) ==> msg.content@.len()
            > config.max_message_length,
        c == GateClassification::Drop(DropReason::Spam) ==> has_text(msg.content@, "http://"@)
            || has_text(msg.content@, "https://"@),
{
    lemma_command_begin(msg.content@);
    law_occurrence_is_between(msg.content@, "http://"@);
    law_occurrence_is_between(msg.content@, "https://"@);
}

/// What answers a message, mentions the bot by its number, or holds its name or
/// one of its other names is taken as personal, where it is not dropped.
pub proof fn law_every_way_to_address_counts(
    msg: ChatMessage,
    config: GateConfig,
    self_id: BotIdentity,
    c: GateClassification,
    segments: Seq<Json>,
    k: int,
    alias: int,
)
    requires
        DefaultHeuristic.classifies(msg, config, self_id, c),
        !(c is Drop),
        ({
            ||| msg.reply_to is Some
            ||| (msg.raw_payload.at("message"@) matches Some(Json::Array(list)) && list@
                == segments) && 0 <= k < segments.len() && text_at(segments[k], "type"@) == Some(
                "at"@,
            ) && (segments[k].at("data"@) matches Some(data) && text_at(data, "qq"@) == Some(
                integer_text(self_id.qq_id as int),
            ))
            ||| self_id.name@.len() > 0 && has_text(trimmed(msg.content@), self_id.name@)
            ||| 0 <= alias < self_id.aliases@.len() && self_id.aliases@[alias]@.len() > 0
                && has_text(trimmed(msg.content@), self_id.aliases@[alias]@)
        }),
    ensures
        c == GateClassification::Escalate(EngagementType::PersonalReply),
{
    if msg.reply_to is None && !(self_id.name@.len() > 0 && has_text(
        trimmed(msg.content@),
        self_id.name@,
    )) {
        if 0 <= alias < self_id.aliases@.len() && self_id.aliases@[alias]@.len() > 0 && has_text(
            trimmed(msg.content@),
            self_id.aliases@[alias]@,
        ) {
            assert(self_id.named_in(trimmed(msg.content@)));
        } else {
            assert(mentions(segments[k], integer_text(self_id.qq_id as int)));
        }
    }
    assert(self_id.addressed(msg));
}

/// The bot joins in only where nobody addressed it, and where there are at most
/// three times as many words as it may use.
pub proof fn law_joins_only_small_talk(
    msg: ChatMessage,
    config: GateConfig,
    self_id: BotIdentity,
    c: GateClassification,
)
    requires
        DefaultHeuristic.classifies(msg, config, self_id, c),
    ensures
        c == GateClassification::Escalate(EngagementType::AmbientJoin) ==> {
            &&& msg.reply_to is None
            &&& words(msg.content@).len() <= 3 * config.max_ambient_words
            &&& self_id.name@.len() > 0 ==> !has_text(trimmed(msg.content@), self_id.name@)
            &&& forall|i: int|
                0 <= i < self_id.aliases@.len() && (#[trigger] self_id.aliases@[i])@.len() > 0
                    ==> !has_text(trimmed(msg.content@), self_id.aliases@[i]@)
        },
        words(msg.content@).len() > 3 * config.max_ambient_words && !(c is Drop) ==> c
            == GateClassification::Escalate(EngagementType::PersonalReply),
{
}

/// A message that is dropped is made known and nothing more; one that is handed
/// on is made known, and then goes to the council as it came, with the state of
/// its sender and the way to take part.
pub proof fn law_classification_is_announced(
    msg: ChatMessage,
    state: AffectiveState,
    c: GateClassification,
    events: Seq<Event>,
)
    requires
        gate_events(msg, state, c, events),
    ensures
        c matches GateClassification::Drop(_) ==> events.len() == 1 && (events[0]
            matches Event::GateDecision(GateDecision::Drop(_))),
        c matches GateClassification::Escalate(way) ==> {
            &&& events.len() == 2
            &&& events[0] matches Event::GateDecision(GateDecision::Escalate(_, w)) && w == way
            &&& events[1] matches Event::Escalation(_, m, s, w) && m == msg && s == state && w
                == way
        },
{
}

/// Every message that comes in is counted, dropped or not, and nothing else is.
pub proof fn law_messages_are_counted(
    before: GateActor,
    event: Event,
    after: GateActor,
    task: GateTask,
)
    requires
        gate_step(before, event, after, task),
    ensures
        (before.counters() matches Some(s) && s.messages_received < u64::MAX) ==> (after.counters()
            matches Some(t) && t.messages_received == before.counters()->0.messages_received + (
        if event is IncomingMessage {
            1int
        } else {
            0
        }) && t.replies_sent == before.counters()->0.replies_sent),
        before.counters() is None ==> after.counters() is None,
        !(event is AffectiveUpdated) ==> after.states_view() == before.states_view(),
{
}

/// What the model says of a message is what happens to it: it is dropped, or
/// handed on in the way that is named.
pub proof fn law_model_is_followed(j: GateAnswerJson, res: Option<GateClassification>)
    requires
        stated(j, res),
    ensures
        j.action@ == "drop"@ ==> (res matches Some(GateClassification::Drop(DropReason::Other(s)))
            && s@ == j.reasoning@),
        res == Some(GateClassification::Escalate(EngagementType::PersonalReply)) <==> j.action@
            == "escalate"@ && j.engagement_type@ == "personal_reply"@,
        res == Some(GateClassification::Escalate(EngagementType::AmbientJoin)) <==> j.action@
            == "escalate"@ && j.engagement_type@ == "ambient_join"@,
        j.action@ != "drop"@ && j.action@ != "escalate"@ ==> res is None,
{
    reveal_strlit("drop");
    reveal_strlit("escalate");
    reveal_strlit("personal_reply");
    reveal_strlit("ambient_join");
    assert("drop"@.len() == 4 && "escalate"@.len() == 8);
    assert("personal_reply"@.len() == 14 && "ambient_join"@.len() == 12);
}

/// The model is told every earlier message, and the message itself behind them.
pub proof fn law_model_is_told_the_talk(
    msg: ChatMessage,
    context: Seq<ChatMessage>,
    name: Seq<char>,
    energy: Seq<char>,
    favor: Seq<char>,
)
    ensures
        forall|i: int|
            0 <= i < context.len() ==> has_text(
                gate_prompt(msg, context, name, energy, favor),
                (#[trigger] context[i]).nickname@ + ": "@ + context[i].content@,
            ),
        context.len() > 0 ==> has_text(
            gate_prompt(msg, context, name, energy, favor),
            joined(
                Seq::new(
                    context.len(),
                    |i: int| context[i].nickname@ + ": "@ + context[i].content@,
                ),
                "\n"@,
            ) + "\n\n当前消息：\n"@ + msg.nickname@ + ": "@ + msg.content@,
        ),
        has_text(
            gate_prompt(msg, context, name, energy, favor),
            name + "\n精力值："@ + energy + "\n好感度："@ + favor,
        ),
{
    let whole = gate_prompt(msg, context, name, energy, favor);
    let lines = context_lines(context);
    let state = name + "\n精力值："@ + energy + "\n好感度："@ + favor;
    let said = "\n\n当前消息：\n"@ + msg.nickname@ + ": "@ + msg.content@;
    let talk = lines + "\n\n当前消息：\n"@ + msg.nickname@ + ": "@ + msg.content@;
    assert(whole =~= GATE_NAME@ + state + (GATE_CONTEXT@ + talk + GATE_FORMAT@));
    lemma_occurs_between(GATE_NAME@, state, GATE_CONTEXT@ + talk + GATE_FORMAT@);
    assert(whole =~= (GATE_NAME@ + state + GATE_CONTEXT@) + talk + GATE_FORMAT@);
    lemma_occurs_between(GATE_NAME@ + state + GATE_CONTEXT@, talk, GATE_FORMAT@);
    assert(talk =~= Seq::<char>::empty() + lines + said);
    lemma_occurs_between(Seq::empty(), lines, said);
    lemma_has_trans(whole, talk, lines);
    let parts = context.map_values(|m: ChatMessage| crate::council::said(m));
    assert(parts =~= Seq::new(
        context.len(),
        |i: int| context[i].nickname@ + ": "@ + context[i].content@,
    ));
    assert forall|i: int| 0 <= i < context.len() implies has_text(
        whole,
        (#[trigger] context[i]).nickname@ + ": "@ + context[i].content@,
    ) by {
        lemma_joined_has(parts, "\n"@, parts.len() as int, i);
        lemma_has_trans(whole, lines, parts[i]);
    }
}

/// The name of a way to classify messages chooses it: one takes everything as
/// personal, any other is the default.
pub proof fn law_heuristic_goes_by_name(
    name: Seq<char>,
    msg: ChatMessage,
    config: GateConfig,
    self_id: BotIdentity,
    c: GateClassification,
)
    requires
        heuristic_named(name).classifies(msg, config, self_id, c),
    ensures
        name == "escalate_all"@ ==> c == GateClassification::Escalate(
            EngagementType::PersonalReply,
        ),
        name != "escalate_all"@ ==> DefaultHeuristic.classifies(msg, config, self_id, c),
{
}

/// A message with more characters than are allowed is dropped, and no model is
/// asked about it.
pub proof fn law_long_messages_are_dropped(
    msg: ChatMessage,
    before: GateActor,
    after: GateActor,
    task: GateTask,
)
    requires
        msg.content@.len() > before.settings().max_message_length,
        gate_step(before, Event::IncomingMessage(msg), after, task),
        before.strategy() == NamedHeuristic::Default(DefaultHeuristic),
    ensures
        task matches GateTask::Send(out) && out@.len() == 1 && (out@[0] matches Event::GateDecision(
            GateDecision::Drop(_),
        )),
{
}

/// Where a model classifies, every message that is no command, holds no link and
/// is not too long is put to it, as it came.
pub proof fn law_model_is_asked(
    msg: ChatMessage,
    before: GateActor,
    after: GateActor,
    task: GateTask,
)
    requires
        before.settings().heuristic@ == "llm"@,
        gate_step(before, Event::IncomingMessage(msg), after, task),
        msg.content@.len() <= before.settings().max_message_length,
        msg.content@.len() > 0 ==> msg.content@[0] != '/' && msg.content@[0] != '!',
        !has_text(msg.content@, "http://"@),
        !has_text(msg.content@, "https://"@),
    ensures
        task matches GateTask::Ask(m, _) && m == msg,
{
    lemma_command_begin(msg.content@);
}

} // verus!
