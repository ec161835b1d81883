//! The hub: what is done about each event, and where it goes.

use vstd::prelude::*;
use vstd::string::*;
use std::sync::Arc;
use crate::clock::Timestamp;
use crate::cooldown::{too_soon, ReplyCooldown};
use crate::error::NekoError;
use crate::ident::{fresh_id_beside, hyphenated, id_text, reads_as, GroupId, MessageId, UserId};
use crate::json::{json_read, member, Json, JsonNumber};
use crate::number::{i64_read, integer_text, law_i64_round_trip, parse_i64};
use crate::onebot::{json_pair, text_at};
use crate::solidify::{quote, quoted};
use crate::text::{copy_texts, same, texts};
use crate::types::{
    AffectiveDeltaUpdate, CouncilAction, CouncilDecision, DropReason, EngagementType,
    EscalationReason, Event, GateDecision, GraphRelationUpdate, MemoryDecision, MemoryRecord,
    MemoryUpdate, ReplyOut, RuntimeState,
};

verus! {

/// The layers that events go to.
#[derive(Debug, Clone, Copy, PartialEq, Eq, Structural)]
pub enum Channel {
    Sensory,
    Council,
    Detective,
    Solidify,
}

/// A reply as it is kept.
#[derive(Debug)]
pub struct ReplyRow {
    pub id: MessageId,
    pub message_id: MessageId,
    pub layer: String,
    pub content: String,
    pub sent_at: Timestamp,
}

/// Something to be done.
#[derive(Debug)]
pub enum Action {
    /// Keep a reply.
    InsertReply(ReplyRow),
    /// Keep a record of what happened, under a kind.
    InsertEvent(String, Json),
    /// Send a reply to the platform.
    SendOut(ReplyOut),
    /// Count a reply that was sent.
    CountReply,
    /// Hand the event on, to one layer after the other.
    Forward(Vec<Channel>, Event),
    /// Store a record in the vector memory.
    Store(Arc<MemoryRecord>),
    /// Add to a relationship of the graph.
    MergeRelation(GraphRelationUpdate),
    /// Move the state of a user of a group.
    AdjustState(GroupId, AffectiveDeltaUpdate),
}

/// What is to be done about an event.
#[derive(Debug)]
pub enum Dispatch {
    /// Nothing: a reply came too soon after the last one.
    Suppressed,
    /// Look up the platform's id of the message that the reply answers, and go
    /// on with it.
    AwaitQuote(ReplyOut),
    /// Do these things in turn; where one fails, leave the rest.
    Perform(Vec<Action>),
}

/// How a reason to drop is written.
pub open spec fn drop_shown(reason: DropReason) -> Seq<char> {
    match reason {
        DropReason::TooLong => "TooLong"@,
        DropReason::Spam => "Spam"@,
        DropReason::BannedUser => "BannedUser"@,
        DropReason::Other(s) => "Other("@ + quoted(s@) + ")"@,
    }
}

/// How a reason to hand on is written.
pub open spec fn escalation_shown(reason: EscalationReason) -> Seq<char> {
    match reason {
        EscalationReason::Conflict => "Conflict"@,
        EscalationReason::StaleMeme => "StaleMeme"@,
        EscalationReason::MaliciousContent => "MaliciousContent"@,
        EscalationReason::NeedsContext => "NeedsContext"@,
        EscalationReason::Other(s) => "Other("@ + quoted(s@) + ")"@,
    }
}

/// How a way to take part is written.
pub open spec fn engagement_shown(engagement: EngagementType) -> Seq<char> {
    match engagement {
        EngagementType::PersonalReply => "PersonalReply"@,
        EngagementType::AmbientJoin => "AmbientJoin"@,
    }
}

/// How a decision of the second layer is written.
pub open spec fn gate_shown(decision: GateDecision) -> Seq<char> {
    match decision {
        GateDecision::Drop(reason) => "Drop("@ + drop_shown(reason) + ")"@,
        GateDecision::Escalate(reason, engagement) => "Escalate("@ + escalation_shown(reason)
            + ", "@ + engagement_shown(engagement) + ")"@,
    }
}

/// How an action of the council is written.
pub open spec fn action_shown(action: CouncilAction) -> Seq<char> {
    match action {
        CouncilAction::ReplyDirectly => "ReplyDirectly"@,
        CouncilAction::LaunchDetective => "LaunchDetective"@,
        CouncilAction::Ignore => "Ignore"@,
    }
}

/// How a decision of the second layer is written.
fn gate_text(decision: &GateDecision) -> (res: String)
    ensures
        res@ == gate_shown(*decision),
{
    match decision {
        GateDecision::Drop(reason) => {
            let r: String = match reason {
                DropReason::TooLong => "TooLong".to_string(),
                DropReason::Spam => "Spam".to_string(),
                DropReason::BannedUser => "BannedUser".to_string(),
                DropReason::Other(s) => "Other(".to_string().concat(
                    quote(s.as_str()).as_str(),
                ).concat(")"),
            };
            "Drop(".to_string().concat(r.as_str()).concat(")")
        },
        GateDecision::Escalate(reason, engagement) => {
            let r: String = match reason {
                EscalationReason::Conflict => "Conflict".to_string(),
                EscalationReason::StaleMeme => "StaleMeme".to_string(),
                EscalationReason::MaliciousContent => "MaliciousContent".to_string(),
                EscalationReason::NeedsContext => "NeedsContext".to_string(),
                EscalationReason::Other(s) => "Other(".to_string().concat(
                    quote(s.as_str()).as_str(),
                ).concat(")"),
            };
            let e: &str = match engagement {
                EngagementType::PersonalReply => "PersonalReply",
                EngagementType::AmbientJoin => "AmbientJoin",
            };
            "Escalate(".to_string().concat(r.as_str()).concat(", ").concat(e).concat(")")
        },
    }
}

/// How an action of the council is written.
fn action_text(action: CouncilAction) -> (res: String)
    ensures
        res@ == action_shown(action),
{
    match action {
        CouncilAction::ReplyDirectly => "ReplyDirectly".to_string(),
        CouncilAction::LaunchDetective => "LaunchDetective".to_string(),
        CouncilAction::Ignore => "Ignore".to_string(),
    }
}

/// The object has one member, under `key`, which is the text `value`.
pub open spec fn single_text(j: Json, key: Seq<char>, value: Seq<char>) -> bool {
    j is Object && j->Object_0@.len() == 1 && text_at(j, key) == Some(value)
}

/// The object has two members, which are the texts given.
pub open spec fn text_pair(
    j: Json,
    key1: Seq<char>,
    value1: Seq<char>,
    key2: Seq<char>,
    value2: Seq<char>,
) -> bool {
    j is Object && j->Object_0@.len() == 2 && text_at(j, key1) == Some(value1) && text_at(j, key2)
        == Some(value2)
}

/// An object of one member.
fn json_single(key: &str, value: String) -> (res: Json)
    ensures
        single_text(res, key@, value@),
{
    let mut members: Vec<(String, Json)> = Vec::new();
    members.push((key.to_string(), Json::Text(value)));
    proof {
        reveal_with_fuel(member, 2);
    }
    Json::Object(Arc::new(members))
}

/// The tags with `tag` among them: as they are where they hold it, and with it
/// at the end otherwise.
pub open spec fn tagged(tags: Seq<Seq<char>>, tag: Seq<char>) -> Seq<Seq<char>> {
    if tags.contains(tag) {
        tags
    } else {
        tags.push(tag)
    }
}

/// The first of the users, or nobody.
pub open spec fn first_user(users: Seq<String>) -> Seq<char> {
    if users.len() > 0 {
        users[0]@
    } else {
        Seq::empty()
    }
}

/// `r` is the record of something to be remembered of a group.
pub open spec fn remembers(
    r: MemoryRecord,
    group: Seq<char>,
    content: Seq<char>,
    tags: Seq<Seq<char>>,
    speaker: Seq<char>,
) -> bool {
    &&& exists|id: u128| r.id@ == #[trigger] hyphenated(id)
    &&& r.group_id@ == group
    &&& r.speaker_id@ == speaker
    &&& r.target_id is None
    &&& r.text@ == content
    &&& r.timestamp.valid()
    &&& r.relation_delta is None
    &&& texts(r.tags@) == tags
    &&& r.layer@ == "detective"@
}

/// `action` puts `update` where it belongs: facts and culture into the vector
/// memory, under a tag of their own; relations into the graph; changes of
/// feeling into the states.
pub open spec fn places(update: MemoryUpdate, group: Seq<char>, action: Action) -> bool {
    match update {
        MemoryUpdate::VectorFact(u) => action matches Action::Store(r) && remembers(
            *r,
            group,
            u.content@,
            tagged(texts(u.tags@), "fact"@),
            first_user(u.related_users@),
        ),
        MemoryUpdate::VectorCulture(u) => action matches Action::Store(r) && remembers(
            *r,
            group,
            u.content@,
            tagged(texts(u.tags@), "culture"@),
            first_user(u.related_users@),
        ),
        MemoryUpdate::GraphRelation(u) => action matches Action::MergeRelation(v) && v.from@
            == u.from@ && v.to@ == u.to@ && v.relation@ == u.relation@ && v.delta == u.delta
            && v.evidence@ == u.evidence@,
        MemoryUpdate::AffectiveDelta(u) => action matches Action::AdjustState(g, v) && g@ == group
            && v.target_user@ == u.target_user@ && v.energy_delta == u.energy_delta
            && v.favorability_delta == u.favorability_delta && v.reason@ == u.reason@ && match (
            v.mood,
            u.mood,
        ) {
            (Some(a), Some(b)) => a@ == b@,
            (None, None) => true,
            _ => false,
        },
    }
}

/// `actions` put the parts of a memory decision where they belong, in their
/// order, no two records under one id.
pub open spec fn placed(decision: MemoryDecision, actions: Seq<Action>) -> bool {
    &&& actions.len() == decision.updates@.len()
    &&& forall|i: int|
        0 <= i < actions.len() ==> places(
            decision.updates@[i],
            decision.group_id@,
            #[trigger] actions[i],
        )
    &&& forall|i: int, j: int|
        0 <= i < j < actions.len() ==> ids_differ(#[trigger] actions[i], #[trigger] actions[j])
}

/// Where both store a record, the records have different ids.
pub open spec fn ids_differ(a: Action, b: Action) -> bool {
    match (a, b) {
        (Action::Store(r), Action::Store(s)) => r.id@ != s.id@,
        _ => true,
    }
}

/// The action stores no record, or one whose id is among `ids`.
spec fn id_among(a: Action, ids: Seq<MessageId>) -> bool {
    match a {
        Action::Store(r) => exists|k: int| 0 <= k < ids.len() && reads_as(r.id@, #[trigger] ids[k]),
        _ => true,
    }
}

/// The tags with `tag` among them.
fn with_tag(tags: &Vec<String>, tag: &str) -> (res: Vec<String>)
    ensures
        texts(res@) == tagged(texts(tags@), tag@),
{
    let mut out: Vec<String> = copy_texts(tags);
    let mut i: usize = 0;
    while i < tags.len()
        invariant
            0 <= i <= tags@.len(),
            out@ == tags@,
            forall|k: int| 0 <= k < i ==> (#[trigger] texts(tags@)[k]) != tag@,
        decreases tags@.len() - i,
    {
        if same(tags[i].as_str(), tag) {
            assert(texts(tags@)[i as int] == tag@);
            return out;
        }
        assert(texts(tags@)[i as int] != tag@);
        i = i + 1;
    }
    assert(!texts(tags@).contains(tag@));
    out.push(tag.to_string());
    assert(texts(out@) =~= texts(tags@).push(tag@));
    out
}

/// The record of something to be remembered.
fn remember(
    id: MessageId,
    group: &GroupId,
    content: &String,
    tags: Vec<String>,
    users: &Vec<UserId>,
) -> (res: Arc<MemoryRecord>)
    ensures
        remembers(*res, group@, content@, texts(tags@), first_user(users@)),
        reads_as(res.id@, id),
{
    let speaker_id: String = if users.len() > 0 {
        users[0].clone()
    } else {
        String::new()
    };
    assert(speaker_id@ =~= first_user(users@));
    Arc::new(
        MemoryRecord {
            id: id_text(id),
            group_id: group.clone(),
            speaker_id,
            target_id: None,
            text: content.clone(),
            timestamp: Timestamp::now(),
            relation_delta: None,
            tags,
            layer: "detective".to_string(),
        },
    )
}

/// Where the parts of a memory decision belong, in their order.
pub fn apply_memory_decision(decision: &MemoryDecision) -> (res: Vec<Action>)
    ensures
        placed(*decision, res@),
{
    let mut out: Vec<Action> = Vec::new();
    let mut ids: Vec<MessageId> = Vec::new();
    let mut i: usize = 0;
    while i < decision.updates.len()
        invariant
            0 <= i <= decision.updates@.len(),
            out@.len() == i,
            forall|k: int|
                0 <= k < i ==> places(
                    decision.updates@[k],
                    decision.group_id@,
                    #[trigger] out@[k],
                ),
            forall|k: int| 0 <= k < i ==> id_among(#[trigger] out@[k], ids@),
            forall|k: int, m: int|
                0 <= k < m < i ==> ids_differ(#[trigger] out@[k], #[trigger] out@[m]),
        decreases decision.updates@.len() - i,
    {
        let id: MessageId = fresh_id_beside(&ids);
        let ghost before = ids@;
        let action: Action = match &decision.updates[i] {
            MemoryUpdate::VectorFact(u) => Action::Store(
                remember(
                    id,
                    &decision.group_id,
                    &u.content,
                    with_tag(&u.tags, "fact"),
                    &u.related_users,
                ),
            ),
            MemoryUpdate::VectorCulture(u) => Action::Store(
                remember(
                    id,
                    &decision.group_id,
                    &u.content,
                    with_tag(&u.tags, "culture"),
                    &u.related_users,
                ),
            ),
            MemoryUpdate::GraphRelation(u) => Action::MergeRelation(
                GraphRelationUpdate {
                    from: u.from.clone(),
                    to: u.to.clone(),
                    relation: u.relation.clone(),
                    delta: u.delta,
                    evidence: u.evidence.clone(),
                },
            ),
            MemoryUpdate::AffectiveDelta(u) => Action::AdjustState(
                decision.group_id.clone(),
                AffectiveDeltaUpdate {
                    target_user: u.target_user.clone(),
                    energy_delta: u.energy_delta,
                    favorability_delta: u.favorability_delta,
                    mood: match &u.mood {
                        Some(m) => Some(m.clone()),
                        None => None,
                    },
                    reason: u.reason.clone(),
                },
            ),
        };
        assert(places(decision.updates@[i as int], decision.group_id@, action));
        ids.push(id);
        proof {
            let last = before.len() as int;
            assert(ids@[last] == id);
            assert(id_among(action, ids@));
            assert forall|k: int| 0 <= k < i implies id_among(#[trigger] out@[k], ids@) && ids_differ(
                out@[k],
                action,
            ) by {
                assert(id_among(out@[k], before));
                if let Action::Store(r) = out@[k] {
                    let n = choose|n: int|
                        0 <= n < before.len() && reads_as(r.id@, #[trigger] before[n]);
                    assert(ids@[n] == before[n]);
                    assert(before.contains(before[n]));
                }
            }
        }
        out.push(action);
        i = i + 1;
    }
    out
}

/// The reply goes out: it is kept, sent, counted where that is asked for, and
/// handed back to the first layer.
pub open spec fn goes_out(reply: ReplyOut, counted: bool, actions: Seq<Action>) -> bool {
    &&& actions.len() == if counted {
        4int
    } else {
        3
    }
    &&& actions[0] matches Action::InsertReply(row) && row.id == reply.id && row.message_id
        == reply.reply_to && row.layer@ == reply.layer@ && row.content@ == reply.content@
        && row.sent_at.valid()
    &&& actions[1] == Action::SendOut(reply)
    &&& counted ==> actions[2] is CountReply
    &&& actions.last() matches Action::Forward(channels, Event::ReplyOut(r)) && channels@
        == seq![Channel::Sensory] && r == reply
}

/// The event is handed on to `channels`, and nothing else is done.
pub open spec fn only_forwards(event: Event, channels: Seq<Channel>, actions: Seq<Action>) -> bool {
    actions.len() == 1 && (actions[0] matches Action::Forward(c, e) && c@ == channels && e
        == event)
}

/// `res` is what is to be done about `event`, where replies are limited by
/// `cooldown` (no limit where it is `None`), at the time `now`.
pub open spec fn routed(
    event: Event,
    cooldown: Option<ReplyCooldown>,
    now: Timestamp,
    counted: bool,
    res: Dispatch,
) -> bool {
    match event {
        Event::ReplyOut(reply) => {
            if cooldown matches Some(c) && too_soon(c.last(), c.interval(), reply.group_id@, now) {
                res is Suppressed
            } else if reply.reply_to_platform is None {
                res == Dispatch::AwaitQuote(reply)
            } else {
                res matches Dispatch::Perform(actions) && goes_out(reply, counted, actions@)
            }
        },
        Event::Escalation(..) => res matches Dispatch::Perform(a) && only_forwards(
            event,
            seq![Channel::Council],
            a@,
        ),
        Event::DetectiveRequest(_) => res matches Dispatch::Perform(a) && only_forwards(
            event,
            seq![Channel::Detective],
            a@,
        ),
        Event::TopicBurst(_) => res matches Dispatch::Perform(a) && only_forwards(
            event,
            seq![Channel::Detective],
            a@,
        ),
        Event::DetectiveReport(_) => res matches Dispatch::Perform(a) && only_forwards(
            event,
            seq![Channel::Council, Channel::Solidify],
            a@,
        ),
        Event::SolidifyTick => res matches Dispatch::Perform(a) && only_forwards(
            event,
            seq![Channel::Solidify],
            a@,
        ),
        Event::GateDecision(decision) => res matches Dispatch::Perform(a) && a@.len() == 1 && (
        a@[0] matches Action::InsertEvent(kind, body) && kind@ == "gate_decision"@ && single_text(
            body,
            "decision"@,
            gate_shown(decision),
        )),
        Event::CouncilDecision(decision) => res matches Dispatch::Perform(a) && a@.len() == 1 && (
        a@[0] matches Action::InsertEvent(kind, body) && kind@ == "council_decision"@ && text_pair(
            body,
            "action"@,
            action_shown(decision.action),
            "reasoning"@,
            decision.reasoning@,
        )),
        Event::DailyContext(context) => res matches Dispatch::Perform(a) && a@.len() == 2 && (a@[0]
            matches Action::InsertEvent(kind, body) && kind@ == "daily_context"@ && single_text(
            body,
            "context"@,
            context@,
        )) && (a@[1] matches Action::Forward(c, e) && c@ == seq![Channel::Council] && e == event),
        Event::MemoryDecision(decision) => res matches Dispatch::Perform(a) && placed(
            decision,
            a@,
        ),
        Event::IncomingMessage(_) => res matches Dispatch::Perform(a) && a@.len() == 0,
        Event::AffectiveUpdated(..) => res matches Dispatch::Perform(a) && a@.len() == 0,
    }
}

/// The marks of the replies after `event` was dispatched at `now`.
pub open spec fn cooled_after(
    event: Event,
    before: Option<ReplyCooldown>,
    now: Timestamp,
    after: Option<ReplyCooldown>,
) -> bool {
    match (before, after) {
        (None, None) => true,
        (Some(b), Some(a)) => {
            &&& a.interval() == b.interval()
            &&& a.last() == match event {
                Event::ReplyOut(reply) => if too_soon(
                    b.last(),
                    b.interval(),
                    reply.group_id@,
                    now,
                ) {
                    b.last()
                } else {
                    b.last().insert(reply.group_id@, now)
                },
                _ => b.last(),
            }
        },
        _ => false,
    }
}

/// The limit is sound, where there is one.
pub open spec fn sound(cooldown: Option<ReplyCooldown>) -> bool {
    cooldown matches Some(c) ==> c.wf()
}

/// What sending a reply takes: keep it, send it, count it where that is asked
/// for, and hand it back to the first layer.
pub fn reply_actions(reply: ReplyOut, counted: bool) -> (res: Vec<Action>)
    ensures
        goes_out(reply, counted, res@),
{
    let mut actions: Vec<Action> = Vec::new();
    actions.push(Action::InsertReply(persist_reply(&reply)));
    actions.push(Action::SendOut(reply.clone()));
    if counted {
        actions.push(Action::CountReply);
    }
    let mut channels: Vec<Channel> = Vec::new();
    channels.push(Channel::Sensory);
    assert(channels@ =~= seq![Channel::Sensory]);
    actions.push(Action::Forward(channels, Event::ReplyOut(reply)));
    actions
}

/// A reply as it is kept, sent now.
pub fn persist_reply(reply: &ReplyOut) -> (res: ReplyRow)
    ensures
        res.id == reply.id,
        res.message_id == reply.reply_to,
        res.layer@ == reply.layer@,
        res.content@ == reply.content@,
        res.sent_at.valid(),
{
    ReplyRow {
        id: reply.id,
        message_id: reply.reply_to,
        layer: reply.layer.clone(),
        content: reply.content.clone(),
        sent_at: Timestamp::now(),
    }
}

/// The reply with the platform's id of the message that it answers, as far as
/// one was found.
pub open spec fn quoting(reply: ReplyOut, platform: Option<i64>) -> ReplyOut {
    ReplyOut { reply_to_platform: platform, ..reply }
}

/// The platform's id that a lookup found: none, where it failed.
pub open spec fn quote_found(lookup: Result<Option<i64>, NekoError>) -> Option<i64> {
    match lookup {
        Ok(platform) => platform,
        Err(_) => None,
    }
}

/// Goes on with a reply, once the platform's id of the message that it answers
/// was looked up. Where none was found, or the lookup failed, the reply goes out
/// without a quote.
pub fn resume_reply(
    reply: ReplyOut,
    lookup: Result<Option<i64>, NekoError>,
    counted: bool,
) -> (res: Vec<Action>)
    ensures
        goes_out(quoting(reply, quote_found(lookup)), counted, res@),
{
    let platform: Option<i64> = match lookup {
        Ok(platform) => platform,
        Err(_) => None,
    };
    let full: ReplyOut = ReplyOut {
        id: reply.id,
        reply_to: reply.reply_to,
        reply_to_platform: platform,
        group_id: reply.group_id,
        target_user: reply.target_user,
        content: reply.content,
        layer: reply.layer,
        trace_id: reply.trace_id,
    };
    reply_actions(full, counted)
}

/// The platform's id in a payload: an integer, or a text that reads as one.
pub open spec fn platform_number(payload: Json) -> Option<int> {
    match payload.at("message_id"@) {
        Some(Json::Text(s)) => match i64_read(s@) {
            Ok(n) => Some(n),
            Err(_) => None,
        },
        Some(j) => j.integer(),
        None => None,
    }
}

/// The platform's id in the stored payload of a message.
pub fn platform_message_id(raw_payload: &str) -> (res: Option<i64>)
    ensures
        match json_read(raw_payload@) {
            Ok(payload) => match res {
                Some(n) => platform_number(payload) == Some(n as int),
                None => platform_number(payload) is None,
            },
            Err(_) => res is None,
        },
{
    match Json::parse(raw_payload) {
        Ok(payload) => quoted_id(&payload),
        Err(_) => None,
    }
}

/// The platform's id in a payload.
pub fn quoted_id(payload: &Json) -> (res: Option<i64>)
    ensures
        match res {
            Some(n) => platform_number(*payload) == Some(n as int),
            None => platform_number(*payload) is None,
        },
{
    match payload.get("message_id") {
        Some(Json::Text(s)) => match parse_i64(s.as_str()) {
            Ok(n) => Some(n),
            Err(_) => None,
        },
        Some(j) => j.as_i64(),
        None => None,
    }
}

/// A list of one channel.
fn only(channel: Channel) -> (res: Vec<Channel>)
    ensures
        res@ == seq![channel],
{
    let mut channels: Vec<Channel> = Vec::new();
    channels.push(channel);
    assert(channels@ =~= seq![channel]);
    channels
}

/// One action.
fn just(action: Action) -> (res: Dispatch)
    ensures
        res matches Dispatch::Perform(a) && a@.len() == 1 && a@[0] == action,
{
    let mut actions: Vec<Action> = Vec::new();
    actions.push(action);
    Dispatch::Perform(actions)
}

/// Decides what is to be done about an event, without counting replies.
pub fn dispatch_event(event: Event, cooldown: &mut Option<ReplyCooldown>, now: Timestamp) -> (res:
    Dispatch)
    requires
        sound(*old(cooldown)),
    ensures
        sound(*final(cooldown)),
        routed(event, *old(cooldown), now, false, res),
        cooled_after(event, *old(cooldown), now, *final(cooldown)),
{
    dispatch_event_with_state(event, cooldown, now, false)
}

/// Decides what is to be done about an event.
pub fn dispatch_event_with_state(
    event: Event,
    cooldown: &mut Option<ReplyCooldown>,
    now: Timestamp,
    counted: bool,
) -> (res: Dispatch)
    requires
        sound(*old(cooldown)),
    ensures
        sound(*final(cooldown)),
        routed(event, *old(cooldown), now, counted, res),
        cooled_after(event, *old(cooldown), now, *final(cooldown)),
{
    dispatch_event_full(event, cooldown, now, counted).0
}

/// `mark` is what is to be saved of the limit on replies: the time of a reply
/// that was let through under it, and nothing otherwise.
pub open spec fn marked(
    event: Event,
    cooldown: Option<ReplyCooldown>,
    now: Timestamp,
    mark: Option<(GroupId, Timestamp)>,
) -> bool {
    match (event, cooldown) {
        (Event::ReplyOut(reply), Some(c)) => match mark {
            Some(m) => !too_soon(c.last(), c.interval(), reply.group_id@, now) && m.0@
                == reply.group_id@ && m.1 == now,
            None => too_soon(c.last(), c.interval(), reply.group_id@, now),
        },
        _ => mark is None,
    }
}

/// Decides what is to be done about an event, and what is to be saved of the
/// limit on replies. Every kind of event has its place here.
pub fn dispatch_event_full(
    event: Event,
    cooldown: &mut Option<ReplyCooldown>,
    now: Timestamp,
    counted: bool,
) -> (res: (Dispatch, Option<(GroupId, Timestamp)>))
    requires
        sound(*old(cooldown)),
    ensures
        sound(*final(cooldown)),
        routed(event, *old(cooldown), now, counted, res.0),
        cooled_after(event, *old(cooldown), now, *final(cooldown)),
        marked(event, *old(cooldown), now, res.1),
{
    match event {
        Event::ReplyOut(reply) => {
            let (may_go, mark) = allowed(cooldown, &reply.group_id, now);
            if !may_go {
                return (Dispatch::Suppressed, None);
            }
            if reply.reply_to_platform.is_none() {
                return (Dispatch::AwaitQuote(reply), mark);
            }
            (Dispatch::Perform(reply_actions(reply, counted)), mark)
        },
        other => (place(other), None),
    }
}

/// Decides what is to be done about an event that is no reply.
fn place(event: Event) -> (res: Dispatch)
    requires
        !(event is ReplyOut),
    ensures
        forall|cooldown: Option<ReplyCooldown>, now: Timestamp, counted: bool| #[trigger]
            routed(event, cooldown, now, counted, res),
{
    match event {
        Event::ReplyOut(_) => Dispatch::Suppressed,
        Event::GateDecision(decision) => {
            let body: Json = json_single("decision", gate_text(&decision));
            just(Action::InsertEvent("gate_decision".to_string(), body))
        },
        Event::CouncilDecision(decision) => {
            proof {
                reveal_strlit("action");
                reveal_strlit("reasoning");
                assert("action"@.len() != "reasoning"@.len());
            }
            let body: Json = json_pair(
                "action",
                Json::Text(action_text(decision.action)),
                "reasoning",
                Json::Text(decision.reasoning),
            );
            just(Action::InsertEvent("council_decision".to_string(), body))
        },
        Event::DailyContext(context) => {
            let mut actions: Vec<Action> = Vec::new();
            actions.push(
                Action::InsertEvent(
                    "daily_context".to_string(),
                    json_single("context", context.clone()),
                ),
            );
            actions.push(Action::Forward(only(Channel::Council), Event::DailyContext(context)));
            Dispatch::Perform(actions)
        },
        Event::Escalation(reason, msg, state, engagement) => just(
            Action::Forward(
                only(Channel::Council),
                Event::Escalation(reason, msg, state, engagement),
            ),
        ),
        Event::DetectiveRequest(input) => just(
            Action::Forward(only(Channel::Detective), Event::DetectiveRequest(input)),
        ),
        Event::TopicBurst(burst) => just(
            Action::Forward(only(Channel::Detective), Event::TopicBurst(burst)),
        ),
        Event::DetectiveReport(report) => {
            let mut channels: Vec<Channel> = Vec::new();
            channels.push(Channel::Council);
            channels.push(Channel::Solidify);
            assert(channels@ =~= seq![Channel::Council, Channel::Solidify]);
            just(Action::Forward(channels, Event::DetectiveReport(report)))
        },
        Event::SolidifyTick => just(
            Action::Forward(only(Channel::Solidify), Event::SolidifyTick),
        ),
        Event::MemoryDecision(decision) => Dispatch::Perform(apply_memory_decision(&decision)),
        Event::IncomingMessage(_) => Dispatch::Perform(Vec::new()),
        Event::AffectiveUpdated(_, _, _) => Dispatch::Perform(Vec::new()),
    }
}

/// Whether a reply may go out; if so, the time is taken down, and it is the mark
/// to be saved.
fn allowed(cooldown: &mut Option<ReplyCooldown>, group_id: &GroupId, now: Timestamp) -> (res: (
    bool,
    Option<(GroupId, Timestamp)>,
))
    requires
        sound(*old(cooldown)),
    ensures
        sound(*final(cooldown)),
        match (*old(cooldown), *final(cooldown)) {
            (None, None) => res.0 && res.1 is None,
            (Some(b), Some(a)) => {
                &&& a.interval() == b.interval()
                &&& res.0 == !too_soon(b.last(), b.interval(), group_id@, now)
                &&& res.1 is Some == res.0
                &&& res.1 matches Some(m) ==> m.0@ == group_id@ && m.1 == now
                &&& a.last() == if res.0 {
                    b.last().insert(group_id@, now)
                } else {
                    b.last()
                }
            },
            _ => false,
        },
{
    match cooldown {
        Some(c) => {
            let mark: Option<(GroupId, Timestamp)> = c.mark_at(group_id, now);
            (mark.is_some(), mark)
        },
        None => (true, None),
    }
}

/// The counters after one more reply.
pub fn count_reply(state: &mut RuntimeState)
    ensures
        *final(state) == (RuntimeState {
            replies_sent: old(state).replies_sent.wrapping_add(1),
            ..*old(state)
        }),
{
    state.replies_sent = state.replies_sent.wrapping_add(1);
}

/// What is said on the failure to hand an event on.
pub open spec fn closed_shown(channel: Channel) -> Seq<char> {
    match channel {
        Channel::Sensory => "sensory routed channel closed"@,
        Channel::Council => "council channel closed"@,
        Channel::Detective => "detective channel closed"@,
        Channel::Solidify => "solidify channel closed"@,
    }
}

/// The error for a layer that takes no more events.
pub fn channel_closed(channel: Channel) -> (res: NekoError)
    ensures
        res.says(crate::error::ErrorKind::Transport, closed_shown(channel)),
{
    let text: &str = match channel {
        Channel::Sensory => "sensory routed channel closed",
        Channel::Council => "council channel closed",
        Channel::Detective => "detective channel closed",
        Channel::Solidify => "solidify channel closed",
    };
    NekoError::transport(text.to_string())
}

/// Only a reply is ever sent to the platform, and only one that does not come
/// too soon.
pub proof fn law_only_replies_are_sent(
    event: Event,
    cooldown: Option<ReplyCooldown>,
    now: Timestamp,
    counted: bool,
    actions: Vec<Action>,
    i: int,
)
    requires
        routed(event, cooldown, now, counted, Dispatch::Perform(actions)),
        0 <= i < actions@.len(),
        actions@[i] is SendOut,
    ensures
        event matches Event::ReplyOut(reply) && actions@[i] == Action::SendOut(reply) && !(
        cooldown matches Some(c) && too_soon(c.last(), c.interval(), reply.group_id@, now)),
{
    if let Event::MemoryDecision(decision) = event {
        assert(places(decision.updates@[i], decision.group_id@, actions@[i]));
    }
}

/// A second reply to a group that comes not more than the interval after the
/// first is suppressed.
pub proof fn law_second_reply_is_suppressed(
    first: ReplyOut,
    before: Option<ReplyCooldown>,
    t1: Timestamp,
    after: Option<ReplyCooldown>,
    second: ReplyOut,
    t2: Timestamp,
    counted: bool,
    res: Dispatch,
)
    requires
        before matches Some(b) && !too_soon(b.last(), b.interval(), first.group_id@, t1)
            && b.interval() > 0 && t2.total() - t1.total() <= b.interval(),
        cooled_after(Event::ReplyOut(first), before, t1, after),
        second.group_id@ == first.group_id@,
        routed(Event::ReplyOut(second), after, t2, counted, res),
    ensures
        res is Suppressed,
{
    assert(after->0.last().contains_key(first.group_id@));
}

/// Every report reaches both the council and the last layer.
pub proof fn law_reports_reach_both(
    event: Event,
    cooldown: Option<ReplyCooldown>,
    now: Timestamp,
    counted: bool,
    res: Dispatch,
)
    requires
        event is DetectiveReport,
        routed(event, cooldown, now, counted, res),
    ensures
        res matches Dispatch::Perform(a) && a@.len() == 1 && (a@[0] matches Action::Forward(c, e)
            && e == event && c@.contains(Channel::Council) && c@.contains(Channel::Solidify)),
{
    let s = seq![Channel::Council, Channel::Solidify];
    assert(s[0] == Channel::Council && s[1] == Channel::Solidify);
}

/// Facts and culture are always stored under their own tag.
pub proof fn law_memory_is_tagged(update: MemoryUpdate, group: Seq<char>, action: Action)
    requires
        places(update, group, action),
    ensures
        update is VectorFact ==> (action matches Action::Store(r) && texts(r.tags@).contains(
            "fact"@,
        )),
        update is VectorCulture ==> (action matches Action::Store(r) && texts(r.tags@).contains(
            "culture"@,
        )),
{
    match update {
        MemoryUpdate::VectorFact(u) => {
            let t = texts(u.tags@);
            assert(t.push("fact"@)[t.len() as int] == "fact"@);
        },
        MemoryUpdate::VectorCulture(u) => {
            let t = texts(u.tags@);
            assert(t.push("culture"@)[t.len() as int] == "culture"@);
        },
        _ => {},
    }
}

/// Every part of a memory decision goes to one place, in order: a fact or a piece
/// of culture is stored for the group, in its words, with the first user that it
/// is about as its speaker; a relation is added to the graph; a change of feeling
/// moves the state of its user in the group.
pub proof fn law_memory_goes_where_it_belongs(
    decision: MemoryDecision,
    actions: Seq<Action>,
    i: int,
)
    requires
        placed(decision, actions),
        0 <= i < decision.updates@.len(),
    ensures
        actions.len() == decision.updates@.len(),
        decision.updates@[i] matches MemoryUpdate::VectorFact(u) ==> (actions[i]
            matches Action::Store(r) && r.text@ == u.content@ && r.group_id@ == decision.group_id@ && (
        u.related_users@.len() > 0 ==> r.speaker_id@ == u.related_users@[0]@) && (
        u.related_users@.len() == 0 ==> r.speaker_id@.len() == 0) && forall|k: int|
            0 <= k < u.tags@.len() ==> (#[trigger] r.tags@[k])@ == u.tags@[k]@),
        decision.updates@[i] matches MemoryUpdate::VectorCulture(u) ==> (actions[i]
            matches Action::Store(r) && r.text@ == u.content@ && r.group_id@ == decision.group_id@ && (
        u.related_users@.len() > 0 ==> r.speaker_id@ == u.related_users@[0]@) && (
        u.related_users@.len() == 0 ==> r.speaker_id@.len() == 0) && forall|k: int|
            0 <= k < u.tags@.len() ==> (#[trigger] r.tags@[k])@ == u.tags@[k]@),
        decision.updates@[i] matches MemoryUpdate::GraphRelation(u) ==> (actions[i]
            matches Action::MergeRelation(v) && v.from@ == u.from@ && v.to@ == u.to@ && v.relation@
            == u.relation@ && v.delta == u.delta),
        decision.updates@[i] matches MemoryUpdate::AffectiveDelta(u) ==> (actions[i]
            matches Action::AdjustState(g, v) && g@ == decision.group_id@ && v.target_user@
            == u.target_user@ && v.energy_delta == u.energy_delta && v.favorability_delta
            == u.favorability_delta),
{
    assert(places(decision.updates@[i], decision.group_id@, actions[i]));
    match decision.updates@[i] {
        MemoryUpdate::VectorFact(u) => {
            if let Action::Store(r) = actions[i] {
                lemma_tags_kept(u.tags@, r.tags@, "fact"@);
            }
        },
        MemoryUpdate::VectorCulture(u) => {
            if let Action::Store(r) = actions[i] {
                lemma_tags_kept(u.tags@, r.tags@, "culture"@);
            }
        },
        _ => {},
    }
}

proof fn lemma_tags_kept(tags: Seq<String>, out: Seq<String>, tag: Seq<char>)
    requires
        texts(out) == tagged(texts(tags), tag),
    ensures
        out.len() == tags.len() || out.len() == tags.len() + 1,
        forall|k: int| 0 <= k < tags.len() ==> (#[trigger] out[k])@ == tags[k]@,
{
    assert(texts(out).len() == out.len());
    assert(texts(tags).len() == tags.len());
    assert forall|k: int| 0 <= k < tags.len() implies (#[trigger] out[k])@ == tags[k]@ by {
        assert(texts(out)[k] == out[k]@);
        assert(texts(tags)[k] == tags[k]@);
    }
}

/// No two records that a memory decision stores have one id, so none takes the
/// place of another.
pub proof fn law_memories_do_not_collide(
    decision: MemoryDecision,
    actions: Seq<Action>,
    i: int,
    j: int,
    r: Arc<MemoryRecord>,
    s: Arc<MemoryRecord>,
)
    requires
        placed(decision, actions),
        0 <= i < actions.len(),
        0 <= j < actions.len(),
        i != j,
        actions[i] == Action::Store(r),
        actions[j] == Action::Store(s),
    ensures
        r.id@ != s.id@,
{
    if i < j {
        assert(ids_differ(actions[i], actions[j]));
    } else {
        assert(ids_differ(actions[j], actions[i]));
    }
}

/// A reply that goes out is kept first, then sent as it is, then counted where that
/// is asked for, and at last handed back to the first layer alone.
pub proof fn law_reply_is_kept_sent_and_handed_back(
    reply: ReplyOut,
    counted: bool,
    actions: Seq<Action>,
)
    requires
        goes_out(reply, counted, actions),
    ensures
        actions[0] matches Action::InsertReply(row) && row.id == reply.id && row.message_id
            == reply.reply_to && row.content@ == reply.content@ && row.layer@ == reply.layer@,
        actions[1] matches Action::SendOut(sent) && sent == reply,
        counted ==> actions.len() == 4 && actions[2] is CountReply,
        !counted ==> actions.len() == 3,
        actions.last() matches Action::Forward(c, Event::ReplyOut(back)) && back == reply && c@.len()
            == 1 && c@[0] == Channel::Sensory,
{
}

/// Every event but a reply has its place: an escalation and the nightly summary go
/// to the council, a request and a burst to the detective, a report to the council
/// and the last layer, a tick to the last layer, each as it came; nothing comes
/// back to the first layer.
pub proof fn law_events_have_their_place(
    event: Event,
    cooldown: Option<ReplyCooldown>,
    now: Timestamp,
    counted: bool,
    actions: Vec<Action>,
)
    requires
        routed(event, cooldown, now, counted, Dispatch::Perform(actions)),
    ensures
        event is Escalation || event is DailyContext ==> (actions@.last() matches Action::Forward(
            c,
            e,
        ) && e == event && c@.len() == 1 && c@[0] == Channel::Council),
        event is DetectiveRequest || event is TopicBurst ==> actions@.len() == 1 && (actions@[0]
            matches Action::Forward(c, e) && e == event && c@.len() == 1 && c@[0]
            == Channel::Detective),
        event is DetectiveReport ==> actions@.len() == 1 && (actions@[0] matches Action::Forward(
            c,
            e,
        ) && e == event && c@.len() == 2 && c@[0] == Channel::Council && c@[1]
            == Channel::Solidify),
        event is SolidifyTick ==> actions@.len() == 1 && (actions@[0] matches Action::Forward(c, e)
            && e == event && c@.len() == 1 && c@[0] == Channel::Solidify),
        event is IncomingMessage || event is AffectiveUpdated ==> actions@.len() == 0,
        event is Escalation ==> actions@.len() == 1,
        event is DailyContext ==> actions@.len() == 2,
{
}

/// Decisions and the nightly summary are recorded under their kind, with what they
/// say.
pub proof fn law_decisions_are_recorded(
    event: Event,
    cooldown: Option<ReplyCooldown>,
    now: Timestamp,
    counted: bool,
    actions: Vec<Action>,
)
    requires
        routed(event, cooldown, now, counted, Dispatch::Perform(actions)),
    ensures
        event matches Event::GateDecision(d) ==> actions@.len() == 1 && (actions@[0]
            matches Action::InsertEvent(kind, body) && kind@ == "gate_decision"@ && text_at(
            body,
            "decision"@,
        ) == Some(gate_shown(d))),
        event matches Event::CouncilDecision(d) ==> actions@.len() == 1 && (actions@[0]
            matches Action::InsertEvent(kind, body) && kind@ == "council_decision"@ && text_at(
            body,
            "reasoning"@,
        ) == Some(d.reasoning@) && text_at(body, "action"@) == Some(action_shown(d.action))),
        event matches Event::DailyContext(text) ==> (actions@[0] matches Action::InsertEvent(
            kind,
            body,
        ) && kind@ == "daily_context"@ && text_at(body, "context"@) == Some(text@)),
{
}

/// How decisions are written: each by its name, with what it holds in brackets.
pub proof fn law_decisions_are_written(
    reason: DropReason,
    why: EscalationReason,
    way: EngagementType,
    action: CouncilAction,
)
    ensures
        reason is TooLong ==> gate_shown(GateDecision::Drop(reason)) == "Drop("@ + "TooLong"@
            + ")"@,
        reason is Spam ==> gate_shown(GateDecision::Drop(reason)) == "Drop("@ + "Spam"@ + ")"@,
        reason is BannedUser ==> gate_shown(GateDecision::Drop(reason)) == "Drop("@ + "BannedUser"@
            + ")"@,
        reason matches DropReason::Other(s) ==> gate_shown(GateDecision::Drop(reason)) == "Drop("@
            + ("Other("@ + quoted(s@) + ")"@) + ")"@,
        why is NeedsContext && way == EngagementType::PersonalReply ==> gate_shown(
            GateDecision::Escalate(why, way),
        ) == "Escalate("@ + "NeedsContext"@ + ", "@ + "PersonalReply"@ + ")"@,
        why is NeedsContext && way == EngagementType::AmbientJoin ==> gate_shown(
            GateDecision::Escalate(why, way),
        ) == "Escalate("@ + "NeedsContext"@ + ", "@ + "AmbientJoin"@ + ")"@,
        why is Conflict ==> escalation_shown(why) == "Conflict"@,
        why is StaleMeme ==> escalation_shown(why) == "StaleMeme"@,
        why is MaliciousContent ==> escalation_shown(why) == "MaliciousContent"@,
        why matches EscalationReason::Other(s) ==> escalation_shown(why) == "Other("@ + quoted(s@)
            + ")"@,
        action == CouncilAction::ReplyDirectly ==> action_shown(action) == "ReplyDirectly"@,
        action == CouncilAction::LaunchDetective ==> action_shown(action) == "LaunchDetective"@,
        action == CouncilAction::Ignore ==> action_shown(action) == "Ignore"@,
{
}

/// A reply whose platform id is known goes out at once; one whose is not waits for
/// the lookup; and one that came too soon does neither.
pub proof fn law_reply_waits_for_its_quote(
    reply: ReplyOut,
    cooldown: Option<ReplyCooldown>,
    now: Timestamp,
    counted: bool,
    res: Dispatch,
)
    requires
        routed(Event::ReplyOut(reply), cooldown, now, counted, res),
        cooldown is None || cooldown->0.interval() == 0 || !cooldown->0.last().contains_key(
            reply.group_id@,
        ) || now.total() - cooldown->0.last()[reply.group_id@].total() > cooldown->0.interval(),
    ensures
        reply.reply_to_platform is None ==> res == Dispatch::AwaitQuote(reply),
        reply.reply_to_platform is Some ==> (res matches Dispatch::Perform(a) && (a@[1]
            matches Action::SendOut(r) && r == reply)),
{
}

/// A reply that was looked up carries the platform id that was found, and is
/// otherwise what it was.
pub proof fn law_quote_changes_nothing_else(
    reply: ReplyOut,
    lookup: Result<Option<i64>, NekoError>,
)
    ensures
        ({
            let full = quoting(reply, quote_found(lookup));
            &&& full.id == reply.id
            &&& full.reply_to == reply.reply_to
            &&& full.group_id == reply.group_id
            &&& full.target_user == reply.target_user
            &&& full.content == reply.content
            &&& full.layer == reply.layer
            &&& full.trace_id == reply.trace_id
            &&& lookup matches Ok(found) ==> full.reply_to_platform == found
            &&& lookup is Err ==> full.reply_to_platform is None
        }),
{
}

/// The platform id of a stored message is the number that stands for it, whether it
/// is written as a number or as a text.
pub proof fn law_platform_id_is_read_back(payload: Json, n: i64)
    requires
        payload.at("message_id"@) matches Some(j) && {
            ||| n >= 0 && j == Json::Number(JsonNumber::Unsigned(n as u64))
            ||| n < 0 && j == Json::Number(JsonNumber::Negative(n))
            ||| j matches Json::Text(s) && s@ == integer_text(n as int)
        },
    ensures
        platform_number(payload) == Some(n as int),
{
    law_i64_round_trip(n);
}

/// Only a reply moves the marks of the limit, and only that of its group; events of
/// other kinds, and replies that are held back, leave them.
pub proof fn law_marks_follow_replies(
    event: Event,
    before: ReplyCooldown,
    now: Timestamp,
    after: ReplyCooldown,
    mark: Option<(GroupId, Timestamp)>,
)
    requires
        cooled_after(event, Some(before), now, Some(after)),
        marked(event, Some(before), now, mark),
    ensures
        after.interval() == before.interval(),
        !(event is ReplyOut) ==> after.last() == before.last() && mark is None,
        mark is None ==> after.last() == before.last(),
        mark matches Some(m) ==> after.last() == before.last().insert(m.0@, m.1) && m.1 == now && (
        event matches Event::ReplyOut(reply) && m.0@ == reply.group_id@),
        event matches Event::ReplyOut(reply) ==> forall|g: Seq<char>|
            g != reply.group_id@ ==> (#[trigger] after.last().contains_key(g)
                <==> before.last().contains_key(g)),
{
}

} // verus!
