//! The data that flows between the layers.

use vstd::prelude::*;
use vstd::string::*;
use crate::clock::Timestamp;
use crate::ident::{GroupId, MessageId, UserId};
use crate::json::Json;
use crate::single::{answers_only, gives, total, Calc, Single, MINUS_ONE, ONE, ZERO};
use crate::text::{split_words, words};

verus! {

/// A chat message captured from a group.
#[derive(Debug, PartialEq)]
pub struct ChatMessage {
    pub id: MessageId,
    /// Follows the message through the logs of every layer.
    pub trace_id: MessageId,
    pub group_id: GroupId,
    pub sender: UserId,
    pub nickname: String,
    pub content: String,
    pub timestamp: Timestamp,
    pub reply_to: Option<MessageId>,
    /// The payload that the message came in, kept for diagnostics.
    pub raw_payload: Json,
}

impl Clone for ChatMessage {
    fn clone(&self) -> (res: Self)
        ensures
            res == *self,
    {
        ChatMessage {
            id: self.id,
            trace_id: self.trace_id,
            group_id: self.group_id.clone(),
            sender: self.sender.clone(),
            nickname: self.nickname.clone(),
            content: self.content.clone(),
            timestamp: self.timestamp,
            reply_to: self.reply_to,
            raw_payload: self.raw_payload.clone(),
        }
    }
}

impl ChatMessage {
    /// The number of words, separated by white space.
    pub fn word_count(&self) -> (res: usize)
        ensures
            res == words(self.content@).len(),
    {
        let v: Vec<String> = split_words(self.content.as_str());
        assert(crate::text::texts(v@).len() == v@.len());
        v.len()
    }

    /// The number of characters.
    pub fn char_count(&self) -> (res: usize)
        ensures
            res == self.content@.len(),
    {
        self.content.as_str().unicode_len()
    }
}

/// The same messages once more.
pub fn copy_messages(v: &Vec<ChatMessage>) -> (res: Vec<ChatMessage>)
    ensures
        res@ == v@,
{
    let mut copy: Vec<ChatMessage> = Vec::new();
    let mut i: usize = 0;
    while i < v.len()
        invariant
            0 <= i <= v@.len(),
            copy@ == v@.take(i as int),
        decreases v@.len() - i,
    {
        copy.push(v[i].clone());
        assert(v@.take(i + 1) =~= v@.take(i as int).push(v@[i as int]));
        i = i + 1;
    }
    assert(v@.take(i as int) =~= v@);
    copy
}

/// How the bot feels about a user of a group.
#[derive(Debug, Clone, Copy, PartialEq, Eq, Structural)]
pub struct AffectiveState {
    /// Rises with activity, decays over time.
    pub energy: Single,
    /// Moves with the quality of the interactions.
    pub favorability: Single,
    /// How often the bot has replied to the user.
    pub reply_count: u64,
    /// When the state last changed.
    pub last_updated: Option<Timestamp>,
}

/// The bits of 0.1, by which a reply raises the energy.
pub const REPLY_ENERGY: u32 = 0x3dcc_cccd;

/// The state of a user not seen before.
pub open spec fn blank_state() -> AffectiveState {
    AffectiveState {
        energy: Single { bits: ZERO },
        favorability: Single { bits: ZERO },
        reply_count: 0,
        last_updated: None,
    }
}

impl Default for AffectiveState {
    fn default() -> (res: Self)
        ensures
            res == blank_state(),
    {
        AffectiveState {
            energy: Single { bits: ZERO },
            favorability: Single { bits: ZERO },
            reply_count: 0,
            last_updated: None,
        }
    }
}

/// `after` is `before` after a reply of the given quality: the energy is raised
/// and kept at one or less, the favorability moved and kept between minus one
/// and one.
pub open spec fn replied<F: Fn(Calc) -> Single>(
    f: F,
    before: AffectiveState,
    quality: Single,
    now: Timestamp,
    after: AffectiveState,
) -> bool {
    &&& after.reply_count == before.reply_count + 1
    &&& after.last_updated == Some(now)
    &&& exists|e: Single| #[trigger]
        gives(f, Calc::Add(before.energy, Single { bits: REPLY_ENERGY }), e) && after.energy
            == e.lesser(Single { bits: ONE })
    &&& exists|q: Single| #[trigger]
        gives(f, Calc::Add(before.favorability, quality), q) && after.favorability == q.limited(
            Single { bits: MINUS_ONE },
            Single { bits: ONE },
        )
}

/// `after` is `before` after `minutes` of decay: the energy falls to zero at
/// the least, the favorability shrinks toward zero and keeps its sign.
pub open spec fn decayed<F: Fn(Calc) -> Single>(
    f: F,
    before: AffectiveState,
    minutes: Single,
    energy_rate: Single,
    favor_rate: Single,
    after: AffectiveState,
) -> bool {
    &&& after.reply_count == before.reply_count
    &&& after.last_updated == before.last_updated
    &&& exists|loss: Single, left: Single|
        #![trigger gives(f, Calc::Mul(minutes, energy_rate), loss), gives(f, Calc::Sub(before.energy, loss), left)]
        gives(f, Calc::Mul(minutes, energy_rate), loss) && gives(
            f,
            Calc::Sub(before.energy, loss),
            left,
        ) && after.energy == left.greater(Single { bits: ZERO })
    &&& exists|loss: Single, left: Single|
        #![trigger gives(f, Calc::Mul(minutes, favor_rate), loss), gives(f, Calc::Sub(before.favorability.unsigned(), loss), left)]
        gives(f, Calc::Mul(minutes, favor_rate), loss) && gives(
            f,
            Calc::Sub(before.favorability.unsigned(), loss),
            left,
        ) && after.favorability == before.favorability.sign_times(
            left.greater(Single { bits: ZERO }),
        )
}

impl AffectiveState {
    /// Applies a reply.
    pub fn on_reply<F: Fn(Calc) -> Single>(&mut self, quality: Single, now: Timestamp, f: &F)
        requires
            total(*f),
            old(self).reply_count < u64::MAX,
        ensures
            replied(*f, *old(self), quality, now, *final(self)),
    {
        self.reply_count = self.reply_count + 1;
        let e: Single = f(Calc::Add(self.energy, Single { bits: REPLY_ENERGY }));
        assert(gives(*f, Calc::Add(old(self).energy, Single { bits: REPLY_ENERGY }), e));
        self.energy = e.min(Single { bits: ONE });
        let q: Single = f(Calc::Add(self.favorability, quality));
        assert(gives(*f, Calc::Add(old(self).favorability, quality), q));
        self.favorability = q.clamp(Single { bits: MINUS_ONE }, Single { bits: ONE });
        self.last_updated = Some(now);
    }

    /// Applies the decay of the elapsed minutes.
    pub fn decay<F: Fn(Calc) -> Single>(
        &mut self,
        minutes: Single,
        energy_decay_rate: Single,
        favor_decay_rate: Single,
        f: &F,
    )
        requires
            total(*f),
        ensures
            decayed(*f, *old(self), minutes, energy_decay_rate, favor_decay_rate, *final(self)),
    {
        let loss: Single = f(Calc::Mul(minutes, energy_decay_rate));
        let left: Single = f(Calc::Sub(self.energy, loss));
        assert(gives(*f, Calc::Mul(minutes, energy_decay_rate), loss));
        assert(gives(*f, Calc::Sub(old(self).energy, loss), left));
        self.energy = left.max(Single { bits: ZERO });
        let favor_loss: Single = f(Calc::Mul(minutes, favor_decay_rate));
        let favor_left: Single = f(Calc::Sub(self.favorability.abs(), favor_loss));
        assert(gives(*f, Calc::Mul(minutes, favor_decay_rate), favor_loss));
        assert(gives(*f, Calc::Sub(old(self).favorability.unsigned(), favor_loss), favor_left));
        self.favorability = self.favorability.times_sign(favor_left.max(Single { bits: ZERO }));
    }
}

/// `after` is `before` moved by the given amounts, the energy kept between zero
/// and one, the favorability between minus one and one.
pub open spec fn shifted<F: Fn(Calc) -> Single>(
    f: F,
    before: AffectiveState,
    energy_delta: Single,
    favor_delta: Single,
    now: Timestamp,
    after: AffectiveState,
) -> bool {
    &&& after.reply_count == before.reply_count
    &&& after.last_updated == Some(now)
    &&& exists|e: Single| #[trigger]
        gives(f, Calc::Add(before.energy, energy_delta), e) && after.energy == e.limited(
            Single { bits: ZERO },
            Single { bits: ONE },
        )
    &&& exists|q: Single| #[trigger]
        gives(f, Calc::Add(before.favorability, favor_delta), q) && after.favorability == q.limited(
            Single { bits: MINUS_ONE },
            Single { bits: ONE },
        )
}

impl AffectiveState {
    /// Moves the state, as a memory of a conversation asks for.
    pub fn shift<F: Fn(Calc) -> Single>(
        &mut self,
        energy_delta: Single,
        favor_delta: Single,
        now: Timestamp,
        f: &F,
    )
        requires
            total(*f),
        ensures
            shifted(*f, *old(self), energy_delta, favor_delta, now, *final(self)),
    {
        let e: Single = f(Calc::Add(self.energy, energy_delta));
        assert(gives(*f, Calc::Add(old(self).energy, energy_delta), e));
        self.energy = e.clamp(Single { bits: ZERO }, Single { bits: ONE });
        let q: Single = f(Calc::Add(self.favorability, favor_delta));
        assert(gives(*f, Calc::Add(old(self).favorability, favor_delta), q));
        self.favorability = q.clamp(Single { bits: MINUS_ONE }, Single { bits: ONE });
        self.last_updated = Some(now);
    }
}

/// A reply leaves the energy at one or less, and the favorability between minus
/// one and one wherever the arithmetic yields a number.
pub proof fn law_reply_keeps_range<F: Fn(Calc) -> Single>(
    f: F,
    before: AffectiveState,
    quality: Single,
    now: Timestamp,
    after: AffectiveState,
)
    requires
        replied(f, before, quality, now, after),
    ensures
        !after.energy.nan(),
        after.energy.rank() <= (Single { bits: ONE }).rank(),
        after.favorability.nan() || (Single { bits: MINUS_ONE }).rank() <= after.favorability.rank()
            <= (Single { bits: ONE }).rank(),
{
}

/// Decay leaves the energy at zero or more, and the favorability with the sign
/// it had.
pub proof fn law_decay_keeps_sign<F: Fn(Calc) -> Single>(
    f: F,
    before: AffectiveState,
    minutes: Single,
    energy_rate: Single,
    favor_rate: Single,
    after: AffectiveState,
)
    requires
        decayed(f, before, minutes, energy_rate, favor_rate, after),
    ensures
        !after.energy.nan() && after.energy.rank() >= 0,
        before.favorability.nan() ==> after.favorability == before.favorability,
        !before.favorability.nan() && !before.favorability.negative()
            ==> after.favorability.rank() >= 0,
        !before.favorability.nan() && before.favorability.negative() ==> after.favorability.rank()
            <= 0,
{
}

/// What flows between the layers.
#[derive(Debug, Clone)]
pub enum Event {
    /// A new message arrived.
    IncomingMessage(ChatMessage),
    /// The state of a user changed.
    AffectiveUpdated(GroupId, UserId, AffectiveState),
    /// The second layer decided.
    GateDecision(GateDecision),
    /// The second layer hands a message to the council.
    Escalation(EscalationReason, ChatMessage, AffectiveState, EngagementType),
    /// The council decided.
    CouncilDecision(CouncilDecision),
    /// The council asks for an investigation.
    DetectiveRequest(DetectiveInput),
    /// An investigation is over.
    DetectiveReport(DetectiveReport),
    /// A reply is to be sent.
    ReplyOut(ReplyOut),
    /// The nightly solidification is due.
    SolidifyTick,
    /// The nightly summary of the relationships.
    DailyContext(String),
    /// A conversation heated up.
    TopicBurst(TopicBurst),
    /// What is to be remembered of a conversation.
    MemoryDecision(MemoryDecision),
}

/// How the bot takes part.
#[derive(Debug, Clone, Copy, PartialEq, Eq, Structural)]
pub enum EngagementType {
    /// The bot was addressed.
    PersonalReply,
    /// The bot joins in.
    AmbientJoin,
}

/// Why a message is dropped.
#[derive(Debug, Clone, PartialEq)]
pub enum DropReason {
    TooLong,
    Spam,
    BannedUser,
    Other(String),
}

/// Why a message is handed to the council.
#[derive(Debug, Clone, PartialEq)]
pub enum EscalationReason {
    Conflict,
    StaleMeme,
    MaliciousContent,
    NeedsContext,
    Other(String),
}

/// What the second layer decides on a message.
#[derive(Debug, Clone, PartialEq)]
pub enum GateDecision {
    /// Drop the message without reply.
    Drop(DropReason),
    /// Hand it to the council.
    Escalate(EscalationReason, EngagementType),
}

/// What the council deliberates on.
#[derive(Debug, Clone)]
pub struct CouncilInput {
    pub message: ChatMessage,
    pub state: AffectiveState,
    pub context: Vec<ChatMessage>,
    /// The nightly summary, empty where there is none yet.
    pub daily_context: String,
    pub engagement_type: EngagementType,
}

/// What the council decides.
#[derive(Debug, Clone, PartialEq)]
pub struct CouncilDecision {
    pub action: CouncilAction,
    pub reasoning: String,
    pub draft_reply: Option<String>,
}

/// What the council can do.
#[derive(Debug, Clone, Copy, PartialEq, Eq, Structural)]
pub enum CouncilAction {
    ReplyDirectly,
    LaunchDetective,
    Ignore,
}

/// What the detective is asked to investigate.
#[derive(Debug, Clone)]
pub struct DetectiveInput {
    pub message: ChatMessage,
    pub state: AffectiveState,
    pub target_user: UserId,
}

/// What an investigation found.
#[derive(Debug, Clone)]
pub struct DetectiveReport {
    /// The message that triggered the investigation.
    pub message_id: MessageId,
    pub trace_id: MessageId,
    /// The group that the user belongs to.
    pub group_id: GroupId,
    pub target_user: UserId,
    pub summary: String,
    pub historical_facts: Vec<Fact>,
    pub psychological_weaknesses: Vec<Weakness>,
    pub relationship_changes: Vec<RelationshipChange>,
    pub recommended_tone: Tone,
    pub confidence: Single,
}

/// A fact about a user.
#[derive(Debug, Clone, PartialEq)]
pub struct Fact {
    pub text: String,
    pub evidence: Vec<String>,
    pub occurred_at: Option<Timestamp>,
}

/// A weak spot of a user.
#[derive(Debug, Clone, PartialEq)]
pub struct Weakness {
    pub description: String,
    pub severity: Single,
}

/// A change in how one user relates to another.
#[derive(Debug, Clone, PartialEq)]
pub struct RelationshipChange {
    pub from: UserId,
    pub to: UserId,
    pub kind: RelationKind,
    pub delta: Single,
    pub evidence: Vec<String>,
}

/// The kinds of relationship.
#[derive(Debug, Clone, PartialEq)]
pub enum RelationKind {
    Neutral,
    Tease,
    Support,
    Conflict,
    Intimacy,
    Other(String),
}

/// The tones that a reply can take.
#[derive(Debug, Clone, Copy, PartialEq, Eq, Structural)]
pub enum Tone {
    Neutral,
    Warm,
    Cold,
    Playful,
    Sarcastic,
    Cautious,
}

/// An update of the graph: a Cypher statement and its parameters.
#[derive(Debug, Clone, PartialEq)]
pub struct GraphUpdate {
    pub cypher: String,
    /// The parameters by name, each name once.
    pub params: Vec<(String, Json)>,
}

/// A reply to be sent.
#[derive(Debug, PartialEq)]
pub struct ReplyOut {
    pub id: MessageId,
    pub reply_to: MessageId,
    /// The platform's id of the message that is answered, for a quoting reply.
    pub reply_to_platform: Option<i64>,
    pub group_id: GroupId,
    pub target_user: UserId,
    pub content: String,
    pub layer: String,
    pub trace_id: MessageId,
}

impl Clone for ReplyOut {
    fn clone(&self) -> (res: Self)
        ensures
            res == *self,
    {
        ReplyOut {
            id: self.id,
            reply_to: self.reply_to,
            reply_to_platform: self.reply_to_platform,
            group_id: self.group_id.clone(),
            target_user: self.target_user.clone(),
            content: self.content.clone(),
            layer: self.layer.clone(),
            trace_id: self.trace_id,
        }
    }
}

/// A record of the vector memory.
#[derive(Debug, Clone, PartialEq)]
pub struct MemoryRecord {
    pub id: String,
    pub group_id: GroupId,
    pub speaker_id: UserId,
    pub target_id: Option<UserId>,
    pub text: String,
    pub timestamp: Timestamp,
    pub relation_delta: Option<RelationshipChange>,
    pub tags: Vec<String>,
    pub layer: String,
}

/// How heated a conversation is.
#[derive(Debug, Clone, Copy, PartialEq, Eq, Structural)]
pub struct TopicBurstScore {
    pub messages_per_minute: Single,
    pub unique_participants: usize,
    pub avg_gap_seconds: Single,
    pub coherence: Option<Single>,
}

/// A conversation that heated up.
#[derive(Debug, Clone)]
pub struct TopicBurst {
    pub group_id: GroupId,
    pub messages: Vec<ChatMessage>,
    pub score: TopicBurstScore,
    pub detected_at: Timestamp,
}

/// What is to be remembered of a conversation.
#[derive(Debug, Clone)]
pub struct MemoryDecision {
    pub group_id: GroupId,
    pub summary: String,
    pub updates: Vec<MemoryUpdate>,
}

/// One thing to be remembered, by the store it belongs to.
#[derive(Debug, Clone)]
pub enum MemoryUpdate {
    VectorFact(VectorFactUpdate),
    VectorCulture(VectorCultureUpdate),
    GraphRelation(GraphRelationUpdate),
    AffectiveDelta(AffectiveDeltaUpdate),
}

/// A fact about users.
#[derive(Debug, Clone)]
pub struct VectorFactUpdate {
    pub content: String,
    pub tags: Vec<String>,
    pub related_users: Vec<UserId>,
}

/// A piece of the culture of a group.
#[derive(Debug, Clone)]
pub struct VectorCultureUpdate {
    pub content: String,
    pub tags: Vec<String>,
    pub related_users: Vec<UserId>,
}

/// A relation between two users that changed.
#[derive(Debug, Clone)]
pub struct GraphRelationUpdate {
    pub from: UserId,
    pub to: UserId,
    pub relation: String,
    pub delta: Single,
    pub evidence: String,
}

/// A change in how the bot feels about a user.
#[derive(Debug, Clone)]
pub struct AffectiveDeltaUpdate {
    pub target_user: UserId,
    pub energy_delta: Single,
    pub favorability_delta: Single,
    pub mood: Option<String>,
    pub reason: String,
}

/// A request to a model.
#[derive(Debug, Clone)]
pub struct LlmRequest {
    pub messages: Vec<LlmMessage>,
    pub temperature: Single,
    pub max_tokens: Option<u32>,
    pub response_format: Option<ResponseFormat>,
}

/// A message of a conversation with a model.
#[derive(Debug, Clone)]
pub struct LlmMessage {
    pub role: LlmRole,
    pub content: String,
}

/// Who speaks in a conversation with a model.
#[derive(Debug, Clone, Copy, PartialEq, Eq, Structural)]
pub enum LlmRole {
    System,
    User,
    Assistant,
}

/// The format expected of a model's answer.
#[derive(Debug, Clone, Copy, PartialEq, Eq, Structural)]
pub enum ResponseFormat {
    Text,
    JsonObject,
}

/// A model's answer.
#[derive(Debug, Clone, PartialEq)]
pub struct LlmResponse {
    pub content: String,
    pub usage: TokenUsage,
    pub finish_reason: FinishReason,
}

/// The tokens that an answer cost.
#[derive(Debug, Clone, Copy, PartialEq, Eq, Structural)]
pub struct TokenUsage {
    pub prompt_tokens: u32,
    pub completion_tokens: u32,
    pub total_tokens: u32,
}

/// Why a model stopped.
#[derive(Debug, Clone, PartialEq)]
pub enum FinishReason {
    Stop,
    Length,
    ContentFilter,
    Other(String),
}

/// The counters of a running router, and whether it is connected.
#[derive(Debug, Clone, Copy, PartialEq, Eq, Structural)]
pub struct RuntimeState {
    pub started_at: Timestamp,
    pub messages_received: u64,
    pub replies_sent: u64,
    /// Whether messages can come in.
    pub connected: bool,
}

/// A reply raises the energy by a tenth, up to one, and moves the favorability by
/// its quality, within one of zero; it is counted, and dated.
pub proof fn law_reply_moves_state<F: Fn(Calc) -> Single>(
    f: F,
    before: AffectiveState,
    quality: Single,
    now: Timestamp,
    after: AffectiveState,
    e: Single,
    q: Single,
)
    requires
        replied(f, before, quality, now, after),
        answers_only(f, Calc::Add(before.energy, Single { bits: 0x3dcc_cccd }), e),
        answers_only(f, Calc::Add(before.favorability, quality), q),
        !e.nan(),
        !q.nan(),
    ensures
        after.energy == if (Single { bits: 0x3f80_0000 }).below(e) {
            Single { bits: 0x3f80_0000 }
        } else {
            e
        },
        after.favorability == if q.below(Single { bits: 0xbf80_0000 }) {
            Single { bits: 0xbf80_0000 }
        } else if (Single { bits: 0x3f80_0000 }).below(q) {
            Single { bits: 0x3f80_0000 }
        } else {
            q
        },
        after.reply_count == before.reply_count + 1,
        after.last_updated == Some(now),
{
}

/// Time takes from the energy, down to zero, and from the favorability toward
/// zero: minutes times the rate of each. It counts no reply.
pub proof fn law_decay_takes_rate_times_minutes<F: Fn(Calc) -> Single>(
    f: F,
    before: AffectiveState,
    minutes: Single,
    energy_rate: Single,
    favor_rate: Single,
    after: AffectiveState,
    loss: Single,
    left: Single,
    favor_loss: Single,
    favor_left: Single,
)
    requires
        decayed(f, before, minutes, energy_rate, favor_rate, after),
        answers_only(f, Calc::Mul(minutes, energy_rate), loss),
        answers_only(f, Calc::Sub(before.energy, loss), left),
        answers_only(f, Calc::Mul(minutes, favor_rate), favor_loss),
        answers_only(f, Calc::Sub(before.favorability.unsigned(), favor_loss), favor_left),
        !left.nan(),
        !favor_left.nan(),
        !before.favorability.nan(),
    ensures
        after.energy == if left.below(Single { bits: 0 }) {
            Single { bits: 0 }
        } else {
            left
        },
        after.favorability.unsigned() == if favor_left.below(Single { bits: 0 }) {
            Single { bits: 0 }
        } else {
            favor_left.unsigned()
        },
        after.reply_count == before.reply_count,
        after.last_updated == before.last_updated,
{
}

/// What is remembered of a conversation moves the state of a user by as much as it
/// says, the energy between zero and one, the favorability within one of zero.
pub proof fn law_shift_moves_state<F: Fn(Calc) -> Single>(
    f: F,
    before: AffectiveState,
    energy_delta: Single,
    favor_delta: Single,
    now: Timestamp,
    after: AffectiveState,
    e: Single,
    q: Single,
)
    requires
        shifted(f, before, energy_delta, favor_delta, now, after),
        answers_only(f, Calc::Add(before.energy, energy_delta), e),
        answers_only(f, Calc::Add(before.favorability, favor_delta), q),
    ensures
        !e.below(Single { bits: 0 }) && !(Single { bits: 0x3f80_0000 }).below(e) ==> after.energy
            == e,
        e.below(Single { bits: 0 }) ==> after.energy.bits == 0,
        (Single { bits: 0x3f80_0000 }).below(e) ==> after.energy.bits == 0x3f80_0000,
        !q.below(Single { bits: 0xbf80_0000 }) && !(Single { bits: 0x3f80_0000 }).below(q)
            ==> after.favorability == q,
        q.below(Single { bits: 0xbf80_0000 }) ==> after.favorability.bits == 0xbf80_0000,
        (Single { bits: 0x3f80_0000 }).below(q) ==> after.favorability.bits == 0x3f80_0000,
        after.reply_count == before.reply_count,
        after.last_updated == Some(now),
{
}

/// A user not seen before has no energy, no favorability and no replies.
pub proof fn law_stranger_is_blank(s: AffectiveState)
    requires
        s == blank_state(),
    ensures
        s.energy.bits == 0,
        s.favorability.bits == 0,
        s.reply_count == 0,
        s.last_updated is None,
{
}

} // verus!
