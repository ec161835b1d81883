//! The third layer: decides what, if anything, is said.

use vstd::prelude::*;
use vstd::string::*;
use dashmap::DashMap;
use crate::clock::Timestamp;
use crate::error::{detailed, ErrorKind, NekoError};
use crate::ident::{fresh_id_but, GroupId, MessageId, UserId};
use crate::llm::{parse_or_fallback, payload, read_gives, reads_all};
use crate::single::{show_with, shown_as, shows_all, Single, HALF};
use crate::store::{found, found_or_none};
use crate::text::{
    has_text, is_space, law_something_is_left, lemma_has_trans, lemma_joined_has,
    lemma_joined_neighbours, lemma_occurs_between, lemma_trimmed_at_end,
    lemma_trimmed_behind_space, trim_end, join, joined, same, texts, trim,
    trimmed,
};
use crate::types::{
    copy_messages, AffectiveState, ChatMessage, CouncilAction, CouncilDecision, CouncilInput,
    DetectiveInput, DetectiveReport, EngagementType, Event, LlmMessage, LlmRequest, LlmResponse,
    LlmRole, ReplyOut, ResponseFormat, Tone,
};

verus! {

/// The settings of the layer.
#[derive(Debug, Clone, Copy, PartialEq, Eq, Structural)]
pub struct CouncilConfig {
    /// How many earlier messages are looked at.
    pub context_limit: usize,
    pub llm_temperature: Single,
    pub llm_max_tokens: u32,
    /// How long an escalation waits for the report of an investigation, in
    /// nanoseconds.
    pub detective_timeout: u128,
}

impl Default for CouncilConfig {
    fn default() -> (res: Self)
        ensures
            res == (CouncilConfig {
                context_limit: 10,
                llm_temperature: Single { bits: 0x3f66_6666 },
                llm_max_tokens: 512,
                detective_timeout: 300_000_000_000,
            }),
    {
        CouncilConfig {
            context_limit: 10,
            llm_temperature: Single { bits: 0x3f66_6666 },
            llm_max_tokens: 512,
            detective_timeout: 300_000_000_000,
        }
    }
}

/// The longest time between two sweeps, in nanoseconds.
pub const MAX_SWEEP: u128 = 30_000_000_000;

impl CouncilConfig {
    /// How often escalations that waited too long are swept, in nanoseconds.
    pub fn sweep_every(&self) -> (res: u128)
        ensures
            res == if self.detective_timeout <= MAX_SWEEP {
                self.detective_timeout
            } else {
                MAX_SWEEP
            },
    {
        if self.detective_timeout <= MAX_SWEEP {
            self.detective_timeout
        } else {
            MAX_SWEEP
        }
    }
}

/// What a model says in answer to the council's prompt.
#[derive(Debug)]
pub struct CouncilDecisionJson {
    pub action: String,
    pub reasoning: String,
    pub draft_reply: String,
}

/// The action that goes by a name.
pub open spec fn action_named(name: Seq<char>) -> Option<CouncilAction> {
    if name == "reply"@ {
        Some(CouncilAction::ReplyDirectly)
    } else if name == "detective"@ {
        Some(CouncilAction::LaunchDetective)
    } else if name == "ignore"@ {
        Some(CouncilAction::Ignore)
    } else {
        None
    }
}

/// `res` is the decision that `j` states.
pub open spec fn decides(j: CouncilDecisionJson, res: Result<CouncilDecision, NekoError>) -> bool {
    match res {
        Ok(d) => {
            &&& action_named(j.action@) == Some(d.action)
            &&& d.reasoning@ == j.reasoning@
            &&& match d.draft_reply {
                Some(text) => j.draft_reply@.len() > 0 && text@ == j.draft_reply@,
                None => j.draft_reply@.len() == 0,
            }
        },
        Err(e) => action_named(j.action@) is None && e.says(
            ErrorKind::Parse,
            "unknown council action: "@ + j.action@,
        ),
    }
}

/// The decision that a model states.
pub fn council_decision(parsed: CouncilDecisionJson) -> (res: Result<CouncilDecision, NekoError>)
    ensures
        decides(parsed, res),
{
    let name: &str = parsed.action.as_str();
    let action: CouncilAction = if same(name, "reply") {
        CouncilAction::ReplyDirectly
    } else if same(name, "detective") {
        CouncilAction::LaunchDetective
    } else if same(name, "ignore") {
        CouncilAction::Ignore
    } else {
        return Err(detailed(ErrorKind::Parse, "unknown council action: ", name));
    };
    let draft_reply: Option<String> = if parsed.draft_reply.as_str().unicode_len() == 0 {
        None
    } else {
        Some(parsed.draft_reply)
    };
    Ok(CouncilDecision { action, reasoning: parsed.reasoning, draft_reply })
}

/// `res` is the decision in the answer `raw`, read by `read`.
pub open spec fn decision_read<F: Fn(&str) -> Result<CouncilDecisionJson, String>>(
    read: F,
    raw: Seq<char>,
    res: Result<CouncilDecision, NekoError>,
) -> bool {
    exists|got: Result<CouncilDecisionJson, String>|
        {
            &&& #[trigger] read_gives(read, payload(raw), got)
            &&& match got {
                Ok(j) => decides(j, res),
                Err(m) => res matches Err(e) && e.says(
                    ErrorKind::Parse,
                    "cannot parse council decision: "@ + m@,
                ),
            }
        }
}

/// Reads the decision in a model's answer.
pub fn parse_council_decision<F: Fn(&str) -> Result<CouncilDecisionJson, String>>(
    raw: &str,
    read: &F,
) -> (res: Result<CouncilDecision, NekoError>)
    requires
        reads_all(*read),
    ensures
        decision_read(*read, raw@, res),
{
    match parse_or_fallback(raw, read) {
        Ok(parsed) => council_decision(parsed),
        Err((m, _)) => Err(detailed(ErrorKind::Parse, "cannot parse council decision: ", m.as_str())),
    }
}

/// The prompt up to the name of the user.
pub const PROMPT_USER: &'static str =
    "你是一座赛博猫娘心智议会中的首席路由官。现在需要决定如何回复 QQ 群里的这条消息。\n\
     \n\
     目标用户：";

/// The prompt between the name and the message.
pub const PROMPT_MESSAGE: &'static str = "\n当前消息：\"";

/// The prompt between the message and the energy.
pub const PROMPT_ENERGY: &'static str = "\"\n精力值：";

/// The prompt between the energy and the favorability.
pub const PROMPT_FAVOR: &'static str = "（越高越活跃）\n好感度：";

/// The prompt after the favorability.
pub const PROMPT_AFTER_FAVOR: &'static str = "（越高越亲近）\n\n";

/// How the bot is to speak where it joins in unasked.
pub const PROMPT_AMBIENT: &'static str = "参与方式：自然插话，回复要简短、俏皮。\n\n";

/// The heading of the long-term memory.
pub const PROMPT_DAILY: &'static str = "当前长期关系记忆：\n";

/// The heading of the earlier messages.
pub const PROMPT_CONTEXT: &'static str = "近期历史上下文：\n";

/// What stands in place of the earlier messages where there are none.
pub const PROMPT_NO_CONTEXT: &'static str = "（无历史上下文）";

/// The rest of the prompt.
pub const PROMPT_DEBATE: &'static str = "\n\
     \n\
     议会中有三个角色在辩论：\n\
     1. 【猫系本能】：凭直觉、情绪、猫娘本能反应。\n\
     2. 【社交伪装】：考虑群聊氛围、社交礼仪、避免冲突。\n\
     3. 【冷酷理智】：理性分析风险、判断是否需要更多信息。\n\
     \n\
     请综合三方的意见，由首席路由官输出最终决策。只输出 JSON，不要解释。JSON 格式如下：\n\
     {\n\
     \"action\": \"reply\" | \"detective\" | \"ignore\",\n\
     \"reasoning\": \"一句话决策理由\",\n\
     \"draft_reply\": \"如果 action 是 reply，填写回复内容；否则为空字符串\"\n\
     }\n\
     \n\
     注意：回复内容不要超过 50 字。";

/// A message on a line of its own: who said what.
pub open spec fn said(m: ChatMessage) -> Seq<char> {
    m.nickname@ + ": "@ + m.content@
}

/// The earlier messages, one on each line.
pub open spec fn context_lines(context: Seq<ChatMessage>) -> Seq<char> {
    if context.len() == 0 {
        PROMPT_NO_CONTEXT@
    } else {
        joined(context.map_values(|m: ChatMessage| said(m)), "\n"@)
    }
}

/// The long-term memory, where there is any.
pub open spec fn daily_block(daily: Seq<char>) -> Seq<char> {
    if trimmed(daily).len() == 0 {
        Seq::empty()
    } else {
        PROMPT_DAILY@ + trimmed(daily) + "\n\n"@
    }
}

/// How the bot is to speak: short and playful where it joins in unasked.
pub open spec fn style_block(engagement: EngagementType) -> Seq<char> {
    match engagement {
        EngagementType::PersonalReply => Seq::empty(),
        EngagementType::AmbientJoin => PROMPT_AMBIENT@,
    }
}

/// The prompt, with the energy and the favorability written as given.
pub open spec fn prompt_text(
    input: CouncilInput,
    context: Seq<ChatMessage>,
    energy: Seq<char>,
    favor: Seq<char>,
) -> Seq<char> {
    PROMPT_USER@ + input.message.nickname@ + PROMPT_MESSAGE@ + input.message.content@
        + PROMPT_ENERGY@ + energy + PROMPT_FAVOR@ + favor + PROMPT_AFTER_FAVOR@ + style_block(
        input.engagement_type,
    ) + daily_block(input.daily_context@) + PROMPT_CONTEXT@ + context_lines(context) + PROMPT_DEBATE@
}

/// The earlier messages, one on each line.
pub(crate) fn context_text(context: &Vec<ChatMessage>) -> (res: String)
    ensures
        res@ == context_lines(context@),
{
    if context.len() == 0 {
        return PROMPT_NO_CONTEXT.to_string();
    }
    let mut lines: Vec<String> = Vec::new();
    let mut i: usize = 0;
    while i < context.len()
        invariant
            0 <= i <= context@.len(),
            texts(lines@) == context@.take(i as int).map_values(|m: ChatMessage| said(m)),
        decreases context@.len() - i,
    {
        let m: &ChatMessage = &context[i];
        let ghost before = lines@;
        lines.push(m.nickname.clone().concat(": ").concat(m.content.as_str()));
        proof {
            assert(texts(lines@) =~= texts(before).push(said(*m)));
            assert(context@.take(i + 1) =~= context@.take(i as int).push(*m));
            assert(texts(lines@) =~= context@.take(i + 1).map_values(|m: ChatMessage| said(m)));
        }
        i = i + 1;
    }
    assert(context@.take(i as int) =~= context@);
    join(&lines, "\n")
}

/// Builds the prompt in which the three minds debate: instinct, social sense
/// and cold reason. Numbers are written by `show`.
pub fn council_prompt<G: Fn(Single) -> String>(
    input: &CouncilInput,
    context: &Vec<ChatMessage>,
    show: &G,
) -> (res: String)
    requires
        shows_all(*show),
    ensures
        exists|energy: Seq<char>, favor: Seq<char>|
            {
                &&& #[trigger] shown_as(*show, input.state.energy, energy)
                &&& #[trigger] shown_as(*show, input.state.favorability, favor)
                &&& res@ == prompt_text(*input, context@, energy, favor)
            },
{
    let energy: String = show_with(show, input.state.energy);
    let favor: String = show_with(show, input.state.favorability);
    let daily: String = trim(input.daily_context.as_str());
    let mut block: String = String::new();
    if daily.as_str().unicode_len() > 0 {
        block = PROMPT_DAILY.to_string().concat(daily.as_str()).concat("\n\n");
    }
    assert(block@ =~= daily_block(input.daily_context@));
    let mut prompt: String = PROMPT_USER.to_string();
    prompt.append(input.message.nickname.as_str());
    prompt.append(PROMPT_MESSAGE);
    prompt.append(input.message.content.as_str());
    prompt.append(PROMPT_ENERGY);
    prompt.append(energy.as_str());
    prompt.append(PROMPT_FAVOR);
    prompt.append(favor.as_str());
    prompt.append(PROMPT_AFTER_FAVOR);
    match input.engagement_type {
        EngagementType::PersonalReply => {
            assert(prompt@ =~= prompt@ + style_block(input.engagement_type));
        },
        EngagementType::AmbientJoin => {
            prompt.append(PROMPT_AMBIENT);
        },
    }
    prompt.append(block.as_str());
    prompt.append(PROMPT_CONTEXT);
    prompt.append(context_text(context).as_str());
    prompt.append(PROMPT_DEBATE);
    proof {
        assert(shown_as(*show, input.state.energy, energy@));
        assert(shown_as(*show, input.state.favorability, favor@));
        assert(prompt@ == prompt_text(*input, context@, energy@, favor@));
    }
    prompt
}

/// An escalation that waits for the report of an investigation.
#[derive(Debug)]
pub struct PendingDetective {
    pub message: ChatMessage,
    /// When the investigation was asked for, in nanoseconds of a steady clock.
    pub inserted_at: u128,
}

/// The escalations that wait, by the id of their message.
pub type PendingMap = DashMap<MessageId, PendingDetective>;

/// What a map of waiting escalations holds.
pub uninterp spec fn pending_entries(m: PendingMap) -> Map<MessageId, PendingDetective>;

/// The escalation has waited less than `timeout` at `now`.
pub open spec fn waits(p: PendingDetective, now: int, timeout: int) -> bool {
    if now >= p.inserted_at {
        now - p.inserted_at < timeout
    } else {
        0 < timeout
    }
}

/// Whether the escalation has waited less than `timeout` at `now`.
fn still_waits(p: &PendingDetective, now: u128, timeout: u128) -> (res: bool)
    ensures
        res == waits(*p, now as int, timeout as int),
{
    if now >= p.inserted_at {
        now - p.inserted_at < timeout
    } else {
        0 < timeout
    }
}

/// An empty map of waiting escalations.
///
/// Stands for `DashMap::new`.
#[verifier::external_body]
fn pending_new() -> (res: PendingMap)
    ensures
        forall|k: MessageId| !#[trigger] pending_entries(res).contains_key(k),
{
    DashMap::new()
}

/// Sets a waiting escalation.
///
/// Stands for `DashMap::insert`.
#[verifier::external_body]
fn pending_insert(m: &mut PendingMap, key: MessageId, value: PendingDetective)
    ensures
        pending_entries(*final(m)) == pending_entries(*old(m)).insert(key, value),
{
    m.insert(key, value);
}

/// Takes a waiting escalation out; says whether there was one.
///
/// Stands for `DashMap::remove`.
#[verifier::external_body]
fn pending_remove(m: &mut PendingMap, key: MessageId) -> (res: bool)
    ensures
        pending_entries(*final(m)) == pending_entries(*old(m)).remove(key),
        res == pending_entries(*old(m)).contains_key(key),
{
    m.remove(&key).is_some()
}

/// Keeps the escalations that have waited less than `timeout` at `now`.
///
/// Stands for `DashMap::retain`, which keeps the entries that the function it
/// is given says to keep, and no others.
#[verifier::external_body]
fn pending_retain(m: &mut PendingMap, now: u128, timeout: u128)
    ensures
        forall|k: MessageId| #[trigger]
            pending_entries(*final(m)).contains_key(k) <==> pending_entries(*old(m)).contains_key(k)
                && waits(pending_entries(*old(m))[k], now as int, timeout as int),
        forall|k: MessageId| #[trigger]
            pending_entries(*final(m)).contains_key(k) ==> pending_entries(*final(m))[k]
                == pending_entries(*old(m))[k],
{
    m.retain(|_, p| still_waits(p, now, timeout));
}

/// The map holds finitely many entries, `n` of them.
pub open spec fn counts(m: Map<MessageId, PendingDetective>, n: usize) -> bool {
    m.dom().finite() && n == m.dom().len()
}

/// The number of waiting escalations.
///
/// Stands for `DashMap::len`.
#[verifier::external_body]
fn pending_len(m: &PendingMap) -> (res: usize)
    ensures
        counts(pending_entries(*m), res),
{
    m.len()
}

/// The reply that a report leads to: the summary, in the tone that it
/// recommends.
pub open spec fn report_text(report: DetectiveReport) -> Seq<char> {
    trimmed(tone_hint(report.recommended_tone) + " "@ + report.summary@)
}

/// The report is confident, and says something.
pub open spec fn actionable(report: DetectiveReport) -> bool {
    !report.confidence.below(Single { bits: HALF }) && trimmed(report.summary@).len() > 0
}

/// A tone in words.
pub open spec fn tone_hint(tone: Tone) -> Seq<char> {
    match tone {
        Tone::Warm => "温柔地"@,
        Tone::Cold => "冷淡地"@,
        Tone::Playful => "俏皮地"@,
        Tone::Sarcastic => "带讽刺地"@,
        Tone::Cautious => "谨慎地"@,
        Tone::Neutral => ""@,
    }
}

/// Composes the reply that a report leads to. A report that is not confident
/// enough, or empty, leads to none.
pub fn compose_detective_reply(report: &DetectiveReport) -> (res: Option<String>)
    ensures
        match res {
            Some(text) => actionable(*report) && text@ == report_text(*report),
            None => !actionable(*report),
        },
{
    if report.confidence.lt(&Single { bits: HALF }) {
        return None;
    }
    if trim(report.summary.as_str()).as_str().unicode_len() == 0 {
        return None;
    }
    let hint: &str = match report.recommended_tone {
        Tone::Warm => "温柔地",
        Tone::Cold => "冷淡地",
        Tone::Playful => "俏皮地",
        Tone::Sarcastic => "带讽刺地",
        Tone::Cautious => "谨慎地",
        Tone::Neutral => "",
    };
    let reply: String = hint.to_string().concat(" ").concat(report.summary.as_str());
    Some(trim(reply.as_str()))
}

/// Which earlier messages are to be looked up.
#[derive(Debug)]
pub struct ContextQuery {
    pub group_id: GroupId,
    /// Only messages of this user, where one is named.
    pub user_id: Option<UserId>,
    pub before: Timestamp,
    pub limit: usize,
}

/// The query asks for the `limit` latest messages from before `now`, of the
/// sender where the bot was addressed, and of the whole group where it joins in.
pub open spec fn looks_back(
    query: ContextQuery,
    msg: ChatMessage,
    engagement: EngagementType,
    limit: usize,
    now: Timestamp,
) -> bool {
    &&& query.group_id@ == msg.group_id@
    &&& match query.user_id {
        Some(user) => engagement == EngagementType::PersonalReply && user@ == msg.sender@,
        None => engagement == EngagementType::AmbientJoin,
    }
    &&& query.before == now
    &&& query.limit == limit
}

/// A reply of the council.
pub open spec fn council_reply(
    reply: ReplyOut,
    reply_to: MessageId,
    trace_id: MessageId,
    group: Seq<char>,
    user: Seq<char>,
    content: Seq<char>,
) -> bool {
    &&& reply.id != reply_to
    &&& reply.reply_to == reply_to
    &&& reply.reply_to_platform is None
    &&& reply.group_id@ == group
    &&& reply.target_user@ == user
    &&& reply.content@ == content
    &&& reply.layer@ == "council"@
    &&& reply.trace_id == trace_id
}

/// The events that follow a decision on a message: the decision itself, and a
/// reply or a request for an investigation where it asks for one.
pub open spec fn decision_events(
    msg: ChatMessage,
    state: AffectiveState,
    decision: CouncilDecision,
    events: Seq<Event>,
) -> bool {
    &&& events.len() == if decision.action == CouncilAction::Ignore {
        1int
    } else {
        2
    }
    &&& events[0] matches Event::CouncilDecision(d) && d.action == decision.action && d.reasoning@
        == decision.reasoning@ && same_draft(d.draft_reply, decision.draft_reply)
    &&& match decision.action {
        CouncilAction::ReplyDirectly => events[1] matches Event::ReplyOut(reply) && council_reply(
            reply,
            msg.id,
            msg.trace_id,
            msg.group_id@,
            msg.sender@,
            match decision.draft_reply {
                Some(text) => text@,
                None => "……"@,
            },
        ),
        CouncilAction::LaunchDetective => events[1] matches Event::DetectiveRequest(input)
            && input.message == msg && input.state == state && input.target_user@ == msg.sender@,
        CouncilAction::Ignore => true,
    }
}

/// A decision on `msg` was carried out at `now`, with the events `events`: where
/// an investigation was asked for, its report is waited for.
pub open spec fn carried_out(
    before: CouncilActor,
    msg: ChatMessage,
    state: AffectiveState,
    decision: CouncilDecision,
    now: u128,
    after: CouncilActor,
    events: Seq<Event>,
) -> bool {
    &&& after.settings() == before.settings()
    &&& after.daily() == before.daily()
    &&& after.pending() == if decision.action == CouncilAction::LaunchDetective {
        before.pending().insert(msg.id, PendingDetective { message: msg, inserted_at: now })
    } else {
        before.pending()
    }
    &&& decision_events(msg, state, decision, events)
}

/// The drafts say the same.
pub open spec fn same_draft(a: Option<String>, b: Option<String>) -> bool {
    match (a, b) {
        (Some(x), Some(y)) => x@ == y@,
        (None, None) => true,
        _ => false,
    }
}

/// What the council has to do about an event.
#[derive(Debug)]
pub enum CouncilTask {
    /// Deliberate on a message.
    Deliberate(ChatMessage, AffectiveState, EngagementType),
    /// Review the report of an investigation.
    Review(DetectiveReport),
    /// Take up the nightly summary.
    Remember(String),
    /// Nothing.
    Nothing,
}

/// What the council has to do about an event.
pub fn council_task(event: Event) -> (res: CouncilTask)
    ensures
        res == match event {
            Event::Escalation(_, msg, state, engagement) => CouncilTask::Deliberate(
                msg,
                state,
                engagement,
            ),
            Event::DetectiveReport(report) => CouncilTask::Review(report),
            Event::DailyContext(context) => CouncilTask::Remember(context),
            _ => CouncilTask::Nothing,
        },
{
    match event {
        Event::Escalation(_, msg, state, engagement) => CouncilTask::Deliberate(
            msg,
            state,
            engagement,
        ),
        Event::DetectiveReport(report) => CouncilTask::Review(report),
        Event::DailyContext(context) => CouncilTask::Remember(context),
        _ => CouncilTask::Nothing,
    }
}

/// Decides what is said, and keeps track of investigations.
pub struct CouncilActor {
    config: CouncilConfig,
    pending_detective: PendingMap,
    daily_context: Option<String>,
}

impl CouncilActor {
    /// The settings.
    pub closed spec fn settings(self) -> CouncilConfig {
        self.config
    }

    /// The escalations that wait for a report.
    pub closed spec fn pending(self) -> Map<MessageId, PendingDetective> {
        pending_entries(self.pending_detective)
    }

    /// The nightly summary, empty where there is none.
    pub closed spec fn daily(self) -> Seq<char> {
        match self.daily_context {
            Some(text) => text@,
            None => Seq::empty(),
        }
    }

    /// A layer that waits for nothing.
    pub fn new(config: CouncilConfig) -> (res: Self)
        ensures
            res.settings() == config,
            res.pending() == Map::<MessageId, PendingDetective>::empty(),
            res.daily() == Seq::<char>::empty(),
    {
        let res: Self = CouncilActor {
            config,
            pending_detective: pending_new(),
            daily_context: None,
        };
        assert(res.pending() =~= Map::<MessageId, PendingDetective>::empty());
        res
    }

    /// Gives up on the investigations whose reports have not come in time.
    pub fn sweep_expired(&mut self, now: u128)
        ensures
            swept(*old(self), now as int, *final(self)),
    {
        let timeout: u128 = self.config.detective_timeout;
        pending_retain(&mut self.pending_detective, now, timeout);
    }

    /// The number of escalations that wait for a report.
    pub fn pending_detective_count(&self) -> (res: usize)
        ensures
            self.pending().dom().finite(),
            res == self.pending().dom().len(),
    {
        pending_len(&self.pending_detective)
    }

    /// Takes up the nightly summary. An empty one clears it.
    pub fn store_daily_context(&mut self, context: &str)
        ensures
            daily_taken(*old(self), context@, *final(self)),
    {
        let text: String = trim(context);
        if text.as_str().unicode_len() == 0 {
            self.daily_context = None;
        } else {
            self.daily_context = Some(text);
        }
        assert(self.daily() =~= trimmed(context@));
    }

    /// Which earlier messages to look up for an escalation: those of the
    /// sender, where the bot was addressed, and those of the whole group, where
    /// it joins in.
    pub fn context_query(&self, msg: &ChatMessage, engagement: EngagementType) -> (res: ContextQuery)
        ensures
            exists|now: Timestamp| #[trigger]
                now.valid() && looks_back(
                    res,
                    *msg,
                    engagement,
                    self.settings().context_limit,
                    now,
                ),
    {
        let now: Timestamp = Timestamp::now();
        assert(now.valid());
        self.context_query_at(msg, engagement, now)
    }

    /// Which messages from before `now` to look up for an escalation.
    pub fn context_query_at(
        &self,
        msg: &ChatMessage,
        engagement: EngagementType,
        now: Timestamp,
    ) -> (res: ContextQuery)
        ensures
            looks_back(res, *msg, engagement, self.settings().context_limit, now),
    {
        ContextQuery {
            group_id: msg.group_id.clone(),
            user_id: match engagement {
                EngagementType::PersonalReply => Some(msg.sender.clone()),
                EngagementType::AmbientJoin => None,
            },
            before: now,
            limit: self.config.context_limit,
        }
    }

    /// What the council is to deliberate on.
    pub fn council_input(
        &self,
        msg: &ChatMessage,
        state: AffectiveState,
        context: Vec<ChatMessage>,
        engagement_type: EngagementType,
    ) -> (res: CouncilInput)
        ensures
            res.message == *msg,
            res.state == state,
            res.context == context,
            res.daily_context@ == self.daily(),
            res.engagement_type == engagement_type,
    {
        let daily_context: String = match &self.daily_context {
            Some(text) => text.clone(),
            None => String::new(),
        };
        assert(daily_context@ =~= self.daily());
        CouncilInput { message: msg.clone(), state, context, daily_context, engagement_type }
    }

    /// The request to the model for an escalation, given what became of the lookup
    /// of earlier messages: where it failed, there are none. Numbers are written
    /// by `show`.
    pub fn council_request<G: Fn(Single) -> String>(
        &self,
        msg: &ChatMessage,
        state: AffectiveState,
        lookup: Result<Vec<ChatMessage>, NekoError>,
        engagement_type: EngagementType,
        show: &G,
    ) -> (res: LlmRequest)
        requires
            shows_all(*show),
        ensures
            res.messages@.len() == 1,
            res.messages@[0].role == LlmRole::User,
            exists|input: CouncilInput, energy: Seq<char>, favor: Seq<char>|
                {
                    &&& input.message == *msg
                    &&& input.state == state
                    &&& input.daily_context@ == self.daily()
                    &&& input.engagement_type == engagement_type
                    &&& #[trigger] shown_as(*show, state.energy, energy)
                    &&& #[trigger] shown_as(*show, state.favorability, favor)
                    &&& res.messages@[0].content@ == #[trigger] prompt_text(
                        input,
                        found(lookup),
                        energy,
                        favor,
                    )
                },
            res.temperature == self.settings().llm_temperature,
            res.max_tokens == Some(self.settings().llm_max_tokens),
            res.response_format == Some(ResponseFormat::JsonObject),
    {
        let context: Vec<ChatMessage> = found_or_none(lookup);
        let earlier: Vec<ChatMessage> = copy_messages(&context);
        let input: CouncilInput = self.council_input(msg, state, context, engagement_type);
        let prompt: String = council_prompt(&input, &earlier, show);
        let mut messages: Vec<LlmMessage> = Vec::new();
        messages.push(LlmMessage { role: LlmRole::User, content: prompt });
        LlmRequest {
            messages,
            temperature: self.config.llm_temperature,
            max_tokens: Some(self.config.llm_max_tokens),
            response_format: Some(ResponseFormat::JsonObject),
        }
    }

    /// Carries out a decision on a message, at `now` of the steady clock.
    pub fn carry_out(
        &mut self,
        msg: &ChatMessage,
        state: AffectiveState,
        decision: CouncilDecision,
        now: u128,
    ) -> (res: Vec<Event>)
        ensures
            carried_out(*old(self), *msg, state, decision, now, *final(self), res@),
    {
        let mut events: Vec<Event> = Vec::new();
        let draft: Option<String> = match &decision.draft_reply {
            Some(text) => Some(text.clone()),
            None => None,
        };
        events.push(
            Event::CouncilDecision(
                CouncilDecision {
                    action: decision.action,
                    reasoning: decision.reasoning.clone(),
                    draft_reply: draft,
                },
            ),
        );
        match decision.action {
            CouncilAction::ReplyDirectly => {
                let content: String = match decision.draft_reply {
                    Some(text) => text,
                    None => "……".to_string(),
                };
                events.push(
                    Event::ReplyOut(
                        ReplyOut {
                            id: fresh_id_but(msg.id),
                            reply_to: msg.id,
                            reply_to_platform: None,
                            group_id: msg.group_id.clone(),
                            target_user: msg.sender.clone(),
                            content,
                            layer: "council".to_string(),
                            trace_id: msg.trace_id,
                        },
                    ),
                );
            },
            CouncilAction::LaunchDetective => {
                pending_insert(
                    &mut self.pending_detective,
                    msg.id,
                    PendingDetective { message: msg.clone(), inserted_at: now },
                );
                events.push(
                    Event::DetectiveRequest(
                        DetectiveInput {
                            message: msg.clone(),
                            state,
                            target_user: msg.sender.clone(),
                        },
                    ),
                );
            },
            CouncilAction::Ignore => {},
        }
        events
    }

    /// Takes in the model's answer on an escalation, at `now` of the steady
    /// clock; gives the events to be sent. Where the model failed, nothing
    /// happens; an answer that states no decision is an error.
    pub fn on_council_answer<F: Fn(&str) -> Result<CouncilDecisionJson, String>>(
        &mut self,
        msg: &ChatMessage,
        state: AffectiveState,
        answer: Result<LlmResponse, NekoError>,
        now: u128,
        read: &F,
    ) -> (res: Result<Vec<Event>, NekoError>)
        requires
            reads_all(*read),
        ensures
            final(self).settings() == old(self).settings(),
            final(self).daily() == old(self).daily(),
            match answer {
                Err(_) => res matches Ok(events) && events@.len() == 0 && final(self).pending()
                    == old(self).pending(),
                Ok(resp) => match res {
                    Ok(events) => exists|decision: CouncilDecision|
                        {
                            &&& #[trigger] decision_read(*read, resp.content@, Ok(decision))
                            &&& carried_out(
                                *old(self),
                                *msg,
                                state,
                                decision,
                                now,
                                *final(self),
                                events@,
                            )
                        },
                    Err(e) => decision_read(*read, resp.content@, Err(e)) && final(self).pending()
                        == old(self).pending(),
                },
            },
    {
        match answer {
            Err(_) => Ok(Vec::new()),
            Ok(resp) => match parse_council_decision(resp.content.as_str(), read) {
                Ok(decision) => Ok(self.carry_out(msg, state, decision, now)),
                Err(e) => Err(e),
            },
        }
    }

    /// Takes in the report of an investigation; gives the reply that it leads
    /// to. A report that nothing waits for leads to none.
    pub fn handle_report(&mut self, report: &DetectiveReport) -> (res: Option<ReplyOut>)
        ensures
            report_taken(*old(self), *report, *final(self), res),
    {
        let waited: bool = pending_remove(&mut self.pending_detective, report.message_id);
        if !waited {
            return None;
        }
        match compose_detective_reply(report) {
            Some(content) => Some(
                ReplyOut {
                    id: fresh_id_but(report.message_id),
                    reply_to: report.message_id,
                    reply_to_platform: None,
                    group_id: report.group_id.clone(),
                    target_user: report.target_user.clone(),
                    content,
                    layer: "council".to_string(),
                    trace_id: report.trace_id,
                },
            ),
            None => None,
        }
    }
}

/// The nightly summary was taken up, without white space around it.
pub open spec fn daily_taken(before: CouncilActor, context: Seq<char>, after: CouncilActor) -> bool {
    &&& after.settings() == before.settings()
    &&& after.pending() == before.pending()
    &&& after.daily() == trimmed(context)
}

/// The escalations that waited too long at `now` are gone, and no others.
pub open spec fn swept(before: CouncilActor, now: int, after: CouncilActor) -> bool {
    let timeout = before.settings().detective_timeout as int;
    &&& after.settings() == before.settings()
    &&& after.daily() == before.daily()
    &&& forall|k: MessageId| #[trigger]
        after.pending().contains_key(k) <==> before.pending().contains_key(k) && waits(
            before.pending()[k],
            now,
            timeout,
        )
    &&& forall|k: MessageId| #[trigger]
        after.pending().contains_key(k) ==> after.pending()[k] == before.pending()[k]
}

/// The report was taken in, with the reply `res`.
pub open spec fn report_taken(
    before: CouncilActor,
    report: DetectiveReport,
    after: CouncilActor,
    res: Option<ReplyOut>,
) -> bool {
    &&& after.settings() == before.settings()
    &&& after.daily() == before.daily()
    &&& after.pending() == before.pending().remove(report.message_id)
    &&& match res {
        Some(reply) => before.pending().contains_key(report.message_id) && actionable(report)
            && council_reply(
            reply,
            report.message_id,
            report.trace_id,
            report.group_id@,
            report.target_user@,
            report_text(report),
        ),
        None => !before.pending().contains_key(report.message_id) || !actionable(report),
    }
}

/// A message is answered with one report at the most: a second report on it
/// leads to no reply.
pub proof fn law_report_answered_once(
    first: CouncilActor,
    report: DetectiveReport,
    second: CouncilActor,
    res: Option<ReplyOut>,
    again: DetectiveReport,
    third: CouncilActor,
    res_again: Option<ReplyOut>,
)
    requires
        report_taken(first, report, second, res),
        report_taken(second, again, third, res_again),
        again.message_id == report.message_id,
    ensures
        res_again is None,
        third.pending() == second.pending(),
{
    assert(third.pending() =~= second.pending());
}

/// A report that comes after its escalation was swept leads to no reply.
pub proof fn law_late_report_is_ignored(
    first: CouncilActor,
    now: int,
    second: CouncilActor,
    report: DetectiveReport,
    third: CouncilActor,
    res: Option<ReplyOut>,
)
    requires
        swept(first, now, second),
        report_taken(second, report, third, res),
        first.pending().contains_key(report.message_id) ==> now
            >= first.pending()[report.message_id].inserted_at
            + first.settings().detective_timeout,
    ensures
        res is None,
{
    assert(!second.pending().contains_key(report.message_id));
}

/// A report that comes while its escalation waits leads to a reply exactly
/// where it is confident and says something, also after sweeps before the
/// timeout.
pub proof fn law_timely_report_is_answered(
    first: CouncilActor,
    now: int,
    second: CouncilActor,
    report: DetectiveReport,
    third: CouncilActor,
    res: Option<ReplyOut>,
)
    requires
        swept(first, now, second),
        report_taken(second, report, third, res),
        first.pending().contains_key(report.message_id),
        now < first.pending()[report.message_id].inserted_at + first.settings().detective_timeout,
        first.settings().detective_timeout > 0,
    ensures
        res is Some <==> actionable(report),
{
    assert(second.pending().contains_key(report.message_id));
}

/// The prompt holds the message with the energy behind it, and the lines of the
/// earlier messages.
pub proof fn law_prompt_holds_message(
    input: CouncilInput,
    context: Seq<ChatMessage>,
    energy: Seq<char>,
    favor: Seq<char>,
)
    ensures
        crate::text::has_text(
            prompt_text(input, context, energy, favor),
            PROMPT_MESSAGE@ + input.message.content@ + PROMPT_ENERGY@ + energy,
        ),
        crate::text::has_text(prompt_text(input, context, energy, favor), context_lines(context)),
{
    let a = PROMPT_USER@ + input.message.nickname@;
    let b = PROMPT_MESSAGE@ + input.message.content@ + PROMPT_ENERGY@ + energy;
    let c = PROMPT_FAVOR@ + favor + PROMPT_AFTER_FAVOR@ + style_block(input.engagement_type)
        + daily_block(input.daily_context@) + PROMPT_CONTEXT@;
    let d = context_lines(context);
    let e = PROMPT_DEBATE@;
    let whole = prompt_text(input, context, energy, favor);
    assert(whole =~= a + b + c + d + e);
    assert(whole.subrange(a.len() as int, (a.len() + b.len()) as int) =~= b);
    assert(crate::text::occurs_at(whole, b, a.len() as int));
    let n = a.len() + b.len() + c.len();
    assert(whole.subrange(n as int, (n + d.len()) as int) =~= d);
    assert(crate::text::occurs_at(whole, d, n as int));
}

/// Where the bot joins in unasked, and only there, the prompt asks for a short
/// and playful reply behind the favorability.
pub proof fn law_prompt_sets_style(
    input: CouncilInput,
    context: Seq<ChatMessage>,
    energy: Seq<char>,
    favor: Seq<char>,
)
    ensures
        ({
            let lead = PROMPT_USER@ + input.message.nickname@ + PROMPT_MESSAGE@
                + input.message.content@ + PROMPT_ENERGY@ + energy + PROMPT_FAVOR@ + favor
                + PROMPT_AFTER_FAVOR@;
            let tail = daily_block(input.daily_context@) + PROMPT_CONTEXT@ + context_lines(context)
                + PROMPT_DEBATE@;
            prompt_text(input, context, energy, favor) == match input.engagement_type {
                EngagementType::PersonalReply => lead + tail,
                EngagementType::AmbientJoin => lead + PROMPT_AMBIENT@ + tail,
            }
        }),
{
    let lead = PROMPT_USER@ + input.message.nickname@ + PROMPT_MESSAGE@ + input.message.content@
        + PROMPT_ENERGY@ + energy + PROMPT_FAVOR@ + favor + PROMPT_AFTER_FAVOR@;
    let tail = daily_block(input.daily_context@) + PROMPT_CONTEXT@ + context_lines(context)
        + PROMPT_DEBATE@;
    assert(prompt_text(input, context, energy, favor) =~= lead + style_block(
        input.engagement_type,
    ) + tail);
    assert(lead + Seq::<char>::empty() + tail =~= lead + tail);
}

/// The nightly summary, where there is one, stands in the prompt of every
/// escalation that follows.
pub proof fn law_daily_context_reaches_prompt(
    input: CouncilInput,
    context: Seq<ChatMessage>,
    energy: Seq<char>,
    favor: Seq<char>,
    summary: Seq<char>,
)
    requires
        input.daily_context@ == trimmed(summary),
        trimmed(summary).len() > 0,
    ensures
        crate::text::has_text(prompt_text(input, context, energy, favor), trimmed(summary)),
{
    crate::text::law_trimmed_once(summary);
    let t = trimmed(summary);
    let a = PROMPT_USER@ + input.message.nickname@ + PROMPT_MESSAGE@ + input.message.content@
        + PROMPT_ENERGY@ + energy + PROMPT_FAVOR@ + favor + PROMPT_AFTER_FAVOR@ + style_block(
        input.engagement_type,
    ) + PROMPT_DAILY@;
    let b = "\n\n"@ + PROMPT_CONTEXT@ + context_lines(context) + PROMPT_DEBATE@;
    let whole = prompt_text(input, context, energy, favor);
    assert(whole =~= a + t + b);
    assert(whole.subrange(a.len() as int, (a.len() + t.len()) as int) =~= t);
    assert(crate::text::occurs_at(whole, t, a.len() as int));
}

/// Every earlier message reaches the model, oldest first and one on each line,
/// under the heading of the context: who said what.
pub proof fn law_context_reaches_model(
    input: CouncilInput,
    context: Seq<ChatMessage>,
    energy: Seq<char>,
    favor: Seq<char>,
)
    ensures
        forall|i: int|
            0 <= i < context.len() ==> has_text(
                prompt_text(input, context, energy, favor),
                (#[trigger] context[i]).nickname@ + ": "@ + context[i].content@,
            ),
        forall|i: int|
            0 <= i < context.len() - 1 ==> has_text(
                prompt_text(input, context, energy, favor),
                (#[trigger] context[i]).nickname@ + ": "@ + context[i].content@ + "\n"@ + (
                context[i + 1].nickname@ + ": "@ + context[i + 1].content@),
            ),
        context.len() > 0 ==> has_text(
            prompt_text(input, context, energy, favor),
            "近期历史上下文：\n"@ + joined(
                Seq::new(
                    context.len(),
                    |i: int| context[i].nickname@ + ": "@ + context[i].content@,
                ),
                "\n"@,
            ),
        ),
        context.len() == 0 ==> has_text(
            prompt_text(input, context, energy, favor),
            "近期历史上下文：\n（无历史上下文）"@,
        ),
{
    let whole = prompt_text(input, context, energy, favor);
    let lines = context_lines(context);
    let parts = context.map_values(|m: ChatMessage| said(m));
    lemma_context_section(input, context, energy, favor);
    assert forall|i: int| 0 <= i < context.len() implies has_text(
        whole,
        (#[trigger] context[i]).nickname@ + ": "@ + context[i].content@,
    ) by {
        lemma_joined_has(parts, "\n"@, parts.len() as int, i);
        lemma_has_trans(whole, lines, parts[i]);
    }
    assert forall|i: int| 0 <= i < context.len() - 1 implies has_text(
        whole,
        (#[trigger] context[i]).nickname@ + ": "@ + context[i].content@ + "\n"@ + (context[i
            + 1].nickname@ + ": "@ + context[i + 1].content@),
    ) by {
        lemma_joined_neighbours(parts, "\n"@, parts.len() as int, i);
        lemma_has_trans(whole, lines, parts[i] + "\n"@ + parts[i + 1]);
    }
    assert(parts =~= Seq::new(
        context.len(),
        |i: int| context[i].nickname@ + ": "@ + context[i].content@,
    ));
    assert(context.len() == 0 ==> PROMPT_CONTEXT@ + lines =~= "近期历史上下文：\n（无历史上下文）"@) by {
        reveal_strlit("近期历史上下文：\n（无历史上下文）");
        reveal_strlit("近期历史上下文：\n");
        reveal_strlit("（无历史上下文）");
    }
}

proof fn lemma_context_section(
    input: CouncilInput,
    context: Seq<ChatMessage>,
    energy: Seq<char>,
    favor: Seq<char>,
)
    ensures
        has_text(
            prompt_text(input, context, energy, favor),
            PROMPT_CONTEXT@ + context_lines(context),
        ),
        has_text(prompt_text(input, context, energy, favor), context_lines(context)),
{
    let a = PROMPT_USER@ + input.message.nickname@ + PROMPT_MESSAGE@ + input.message.content@
        + PROMPT_ENERGY@ + energy + PROMPT_FAVOR@ + favor + PROMPT_AFTER_FAVOR@ + style_block(
        input.engagement_type,
    ) + daily_block(input.daily_context@);
    let whole = prompt_text(input, context, energy, favor);
    let lines = context_lines(context);
    let section = PROMPT_CONTEXT@ + lines;
    assert(whole =~= a + section + PROMPT_DEBATE@);
    lemma_occurs_between(a, section, PROMPT_DEBATE@);
    assert(section =~= PROMPT_CONTEXT@ + lines + Seq::<char>::empty());
    lemma_occurs_between(PROMPT_CONTEXT@, lines, Seq::empty());
    lemma_has_trans(whole, section, lines);
}

/// The model is told who speaks, what is said, and the state of the speaker, the
/// energy before the favorability.
pub proof fn law_prompt_tells_message_and_state(
    input: CouncilInput,
    context: Seq<ChatMessage>,
    energy: Seq<char>,
    favor: Seq<char>,
)
    ensures
        has_text(
            prompt_text(input, context, energy, favor),
            input.message.nickname@ + "\n当前消息：\""@ + input.message.content@ + "\"\n精力值："@
                + energy + "（越高越活跃）\n好感度："@ + favor + "（越高越亲近）\n\n"@,
        ),
{
    let body = input.message.nickname@ + "\n当前消息：\""@ + input.message.content@
        + "\"\n精力值："@ + energy + "（越高越活跃）\n好感度："@ + favor
        + "（越高越亲近）\n\n"@;
    let tail = style_block(input.engagement_type) + daily_block(input.daily_context@)
        + PROMPT_CONTEXT@ + context_lines(context) + PROMPT_DEBATE@;
    assert(prompt_text(input, context, energy, favor) =~= PROMPT_USER@ + body + tail);
    lemma_occurs_between(PROMPT_USER@, body, tail);
}

/// A decision is read as it is stated: one of the three actions under its name,
/// with the reasons and the draft that go with it; an empty draft is none, and
/// any other action is refused.
pub proof fn law_decision_is_read_as_stated(
    j: CouncilDecisionJson,
    res: Result<CouncilDecision, NekoError>,
)
    requires
        decides(j, res),
    ensures
        res is Ok <==> (j.action@ == "reply"@ || j.action@ == "detective"@ || j.action@
            == "ignore"@),
        res matches Ok(d) ==> {
            &&& d.action == CouncilAction::ReplyDirectly <==> j.action@ == "reply"@
            &&& d.action == CouncilAction::LaunchDetective <==> j.action@ == "detective"@
            &&& d.action == CouncilAction::Ignore <==> j.action@ == "ignore"@
            &&& d.reasoning@ == j.reasoning@
            &&& j.draft_reply@.len() == 0 ==> d.draft_reply is None
            &&& j.draft_reply@.len() > 0 ==> (d.draft_reply matches Some(t) && t@ == j.draft_reply@)
        },
        res matches Err(e) ==> e.says(ErrorKind::Parse, "unknown council action: "@ + j.action@),
{
    reveal_strlit("reply");
    reveal_strlit("detective");
    reveal_strlit("ignore");
    assert("reply"@.len() == 5 && "detective"@.len() == 9 && "ignore"@.len() == 6);
}

/// What is decided is made known first. A reply goes to the sender of the message
/// in its group, refers to the message and carries its trace; it says what was
/// drafted. An investigation looks into the sender. Nothing else is sent.
pub proof fn law_decision_is_carried_out(
    before: CouncilActor,
    msg: ChatMessage,
    state: AffectiveState,
    decision: CouncilDecision,
    now: u128,
    after: CouncilActor,
    events: Seq<Event>,
)
    requires
        carried_out(before, msg, state, decision, now, after, events),
    ensures
        events.len() >= 1,
        events[0] matches Event::CouncilDecision(d) && d.action == decision.action,
        match decision.action {
            CouncilAction::ReplyDirectly => {
                &&& events.len() == 2
                &&& events[1] matches Event::ReplyOut(r) && r.reply_to == msg.id && r.trace_id
                    == msg.trace_id && r.group_id@ == msg.group_id@ && r.target_user@ == msg.sender@
                    && r.reply_to_platform is None && (decision.draft_reply matches Some(t)
                    ==> r.content@ == t@) && (decision.draft_reply is None ==> r.content@
                    == "……"@)
                &&& after.pending() == before.pending()
            },
            CouncilAction::LaunchDetective => {
                &&& events.len() == 2
                &&& events[1] matches Event::DetectiveRequest(i) && i.message == msg && i.state
                    == state && i.target_user@ == msg.sender@
                &&& after.pending().contains_key(msg.id)
                &&& after.pending()[msg.id].inserted_at == now
            },
            CouncilAction::Ignore => events.len() == 1 && after.pending() == before.pending(),
        },
        forall|k: MessageId|
            k != msg.id ==> (#[trigger] after.pending().contains_key(k)
                <==> before.pending().contains_key(k)),
{
}

/// An investigation that was asked for is answered: a report on the message that
/// is confident and says something leads to a reply to that message, as long as
/// no sweep came after the timeout.
pub proof fn law_investigation_leads_to_reply(
    first: CouncilActor,
    msg: ChatMessage,
    state: AffectiveState,
    decision: CouncilDecision,
    asked: u128,
    second: CouncilActor,
    events: Seq<Event>,
    swept_at: int,
    third: CouncilActor,
    report: DetectiveReport,
    fourth: CouncilActor,
    res: Option<ReplyOut>,
)
    requires
        carried_out(first, msg, state, decision, asked, second, events),
        decision.action == CouncilAction::LaunchDetective,
        swept(second, swept_at, third),
        asked <= swept_at < asked + first.settings().detective_timeout,
        report.message_id == msg.id,
        report_taken(third, report, fourth, res),
    ensures
        res is Some <==> !report.confidence.below(Single { bits: 0x3f00_0000 }) && exists|k: int|
            0 <= k < report.summary@.len() && !is_space(#[trigger] report.summary@[k]),
        res matches Some(r) ==> r.reply_to == msg.id && r.group_id@ == report.group_id@
            && r.target_user@ == report.target_user@ && r.trace_id == report.trace_id,
        !fourth.pending().contains_key(msg.id),
{
    law_something_is_left(report.summary@);
    assert(third.pending().contains_key(msg.id));
}

/// The reply to a report is its summary, led by the tone that it recommends in
/// words; a neutral one is the summary alone. White space around it is dropped.
pub proof fn law_reply_is_summary_in_tone(
    before: CouncilActor,
    report: DetectiveReport,
    after: CouncilActor,
    reply: ReplyOut,
)
    requires
        report_taken(before, report, after, Some(reply)),
    ensures
        reply.content@ == match report.recommended_tone {
            Tone::Warm => "温柔地 "@ + trim_end(report.summary@),
            Tone::Cold => "冷淡地 "@ + trim_end(report.summary@),
            Tone::Playful => "俏皮地 "@ + trim_end(report.summary@),
            Tone::Sarcastic => "带讽刺地 "@ + trim_end(report.summary@),
            Tone::Cautious => "谨慎地 "@ + trim_end(report.summary@),
            Tone::Neutral => trimmed(report.summary@),
        },
{
    let s = report.summary@;
    reveal_strlit(" ");
    reveal_strlit("");
    reveal_strlit("温柔地");
    reveal_strlit("温柔地 ");
    reveal_strlit("冷淡地");
    reveal_strlit("冷淡地 ");
    reveal_strlit("俏皮地");
    reveal_strlit("俏皮地 ");
    reveal_strlit("带讽刺地");
    reveal_strlit("带讽刺地 ");
    reveal_strlit("谨慎地");
    reveal_strlit("谨慎地 ");
    let lead = tone_hint(report.recommended_tone) + " "@;
    match report.recommended_tone {
        Tone::Neutral => {
            assert(lead =~= seq![' ']);
            lemma_trimmed_behind_space(s);
        },
        _ => {
            lemma_trimmed_at_end(lead, s);
            assert("温柔地"@ + " "@ =~= "温柔地 "@);
            assert("冷淡地"@ + " "@ =~= "冷淡地 "@);
            assert("俏皮地"@ + " "@ =~= "俏皮地 "@);
            assert("带讽刺地"@ + " "@ =~= "带讽刺地 "@);
            assert("谨慎地"@ + " "@ =~= "谨慎地 "@);
        },
    }
}

/// A sweep takes the escalations that have waited as long as the timeout, and
/// leaves those that have not.
pub proof fn law_sweep_takes_the_expired(
    before: CouncilActor,
    now: int,
    after: CouncilActor,
    k: MessageId,
)
    requires
        swept(before, now, after),
        before.pending().contains_key(k),
        before.pending()[k].inserted_at <= now,
    ensures
        after.pending().contains_key(k) <==> now - before.pending()[k].inserted_at
            < before.settings().detective_timeout,
        after.pending().contains_key(k) ==> after.pending()[k] == before.pending()[k],
{
}

/// Where the bot was addressed, the earlier messages of the sender are looked up;
/// where it joins in, those of the whole group. They lie before now.
pub proof fn law_context_follows_engagement(
    query: ContextQuery,
    msg: ChatMessage,
    engagement: EngagementType,
    limit: usize,
    now: Timestamp,
)
    requires
        looks_back(query, msg, engagement, limit, now),
    ensures
        query.group_id@ == msg.group_id@,
        engagement == EngagementType::PersonalReply ==> (query.user_id matches Some(u) && u@
            == msg.sender@),
        engagement == EngagementType::AmbientJoin ==> query.user_id is None,
        query.before == now,
        query.limit == limit,
{
}

/// The nightly summary that was taken up last reaches the model with every escalation
/// that follows, whole but for the white space around it; an empty one leaves none, and
/// what is waited for stays.
pub proof fn law_nightly_summary_is_told(
    before: CouncilActor,
    context: Seq<char>,
    after: CouncilActor,
    input: CouncilInput,
    earlier: Seq<ChatMessage>,
    energy: Seq<char>,
    favor: Seq<char>,
)
    requires
        daily_taken(before, context, after),
        input.daily_context@ == after.daily(),
    ensures
        (exists|k: int| 0 <= k < context.len() && !is_space(#[trigger] context[k])) ==> has_text(
            prompt_text(input, earlier, energy, favor),
            "当前长期关系记忆：\n"@ + trimmed(context),
        ),
        !(exists|k: int| 0 <= k < context.len() && !is_space(#[trigger] context[k])) ==> after.daily()
            .len() == 0,
        after.pending() == before.pending(),
{
    law_something_is_left(context);
    crate::text::law_trimmed_once(context);
    if trimmed(context).len() > 0 {
        let t = "当前长期关系记忆：\n"@ + trimmed(context);
        let a = PROMPT_USER@ + input.message.nickname@ + PROMPT_MESSAGE@ + input.message.content@
            + PROMPT_ENERGY@ + energy + PROMPT_FAVOR@ + favor + PROMPT_AFTER_FAVOR@ + style_block(
            input.engagement_type,
        );
        let b = "\n\n"@ + PROMPT_CONTEXT@ + context_lines(earlier) + PROMPT_DEBATE@;
        assert(prompt_text(input, earlier, energy, favor) =~= a + t + b);
        lemma_occurs_between(a, t, b);
    }
}

/// A reply has an id of its own, other than that of the message it answers, and comes
/// from the council.
pub proof fn law_reply_has_its_own_id(
    reply: ReplyOut,
    reply_to: MessageId,
    trace_id: MessageId,
    group: Seq<char>,
    user: Seq<char>,
    content: Seq<char>,
)
    requires
        council_reply(reply, reply_to, trace_id, group, user, content),
    ensures
        reply.id != reply.reply_to,
        reply.reply_to == reply_to,
        reply.trace_id == trace_id,
        reply.group_id@ == group,
        reply.target_user@ == user,
        reply.content@ == content,
        reply.layer@ == "council"@,
        reply.reply_to_platform is None,
{
}

} // verus!
