//! What the operations are for, stated of whatever they return: laws that follow
//! from their contracts alone, and that tie one operation to another.

use vstd::prelude::*;
use std::sync::Arc;
use crate::clock::Timestamp;
use crate::config::NekoConfig;
use crate::council::{
    compose_detective_reply, council_task, parse_council_decision, ContextQuery, CouncilActor,
    CouncilConfig, CouncilDecisionJson, CouncilTask,
};
use crate::detective::{
    closest, detective_task, fact_query, DetectiveActor, DetectiveReportJson, DetectiveTask,
    MemoryQuery,
};
use crate::error::{ErrorKind, NekoError};
use crate::gate::{BotIdentity, GateActor, GateAnswerJson, GateConfig, LlmGateClassifier};
use crate::graph::InMemoryGraphStore;
use crate::ident::{GroupId, UserId};
use crate::json::{Json, JsonNumber};
use crate::llm::{
    extract_json, is_success, is_transient, judge, payload, read_gives, read_response, url_joined,
    ChatCompletionRequest, ChatCompletionResponse, EmbeddingsRequest, Exchange,
    OpenAiCompatibleClient, OpenAiEmbeddingClient, Verdict,
};
use crate::napcat::{next_connection, plan_send, Connection, GroupSend, Segment};
use crate::number::{integer_text, law_i64_round_trip};
use crate::observe::{observe_limit, wants_observe};
use crate::onebot::{
    accept_event, build_onebot11_group_reply, extract_reply_to, extract_text, integer_at,
    law_text_is_that_of_all_segments, parse_onebot11_group_message, text_at,
};
use crate::router::{
    apply_memory_decision, channel_closed, persist_reply, quoted_id, resume_reply, Action, Channel,
    ReplyRow,
};
use crate::sensory::SensoryConfig;
use crate::single::{shown_as, Single};
use crate::solidify::{
    after_apply, after_summary, parse_solidify_updates, solidify_task, SolidifyTask, TickStep,
};
use crate::status::{is_status_request, respond};
use crate::store::{
    found_or_none, message_row, rows_to_context, rows_to_states, state_row, stored_message,
    AffectiveRow, MessageRow, StoredMessage, StoredMessageRow,
};
use crate::text::{
    contains, has_text, is_space, law_something_is_left, law_trimming_takes_spaces_only,
    lemma_has_trans, lemma_occurs_between, split_words, trim, trimmed, words,
};
use crate::types::{
    AffectiveState, ChatMessage, CouncilAction, CouncilDecision, CouncilInput, DetectiveInput,
    DetectiveReport, EngagementType, Event, Fact, GraphUpdate, LlmRequest, LlmResponse,
    MemoryDecision, MemoryRecord, ReplyOut, RuntimeState, Tone, TopicBurst,
};
use crate::vector_store::{lowered, InMemoryVectorStore};

verus! {

/// The rows of a lookup come newest first and are told oldest first: each message
/// says what its row says, and the first is that of the last row.
pub proof fn law_context_is_told_oldest_first(
    rows: &Vec<MessageRow>,
    messages: Vec<ChatMessage>,
    i: int,
)
    requires
        call_ensures(rows_to_context, (rows,), Ok::<Vec<ChatMessage>, NekoError>(messages)),
        0 <= i < rows@.len(),
    ensures
        messages@.len() == rows@.len(),
        messages@[i].content@ == rows@[rows@.len() - 1 - i].content@,
        messages@[i].group_id@ == rows@[rows@.len() - 1 - i].group_id@,
        messages@[i].sender@ == rows@[rows@.len() - 1 - i].sender_id@,
{
}

/// A message that is stored comes back among the rows of a lookup as it was, but for
/// the parts of its time below a millisecond and for its trace.
pub proof fn law_stored_message_is_told(
    msg: &ChatMessage,
    row: MessageRow,
    rows: &Vec<MessageRow>,
    k: int,
    messages: Vec<ChatMessage>,
)
    requires
        msg.timestamp.valid(),
        call_ensures(message_row, (msg,), row),
        call_ensures(rows_to_context, (rows,), Ok::<Vec<ChatMessage>, NekoError>(messages)),
        0 <= k < rows@.len(),
        rows@[k] == row,
    ensures
        ({
            let back = messages@[rows@.len() - 1 - k];
            &&& back.id == msg.id
            &&& back.group_id@ == msg.group_id@
            &&& back.sender@ == msg.sender@
            &&& back.nickname@ == msg.nickname@
            &&& back.content@ == msg.content@
            &&& back.reply_to == msg.reply_to
            &&& back.timestamp.secs == msg.timestamp.secs
            &&& back.timestamp.nanos <= msg.timestamp.nanos < back.timestamp.nanos + 1_000_000
        }),
{
    let back = messages@[rows@.len() - 1 - k];
    crate::store::law_message_survives_storage(*msg, row, back);
}

/// A state that is stored comes back as it was, but for the parts of its time below a
/// millisecond.
pub proof fn law_stored_state_comes_back(
    group: &GroupId,
    user: &UserId,
    state: &AffectiveState,
    row: AffectiveRow,
    rows: &Vec<AffectiveRow>,
    k: int,
    states: Vec<(GroupId, UserId, AffectiveState)>,
)
    requires
        state.last_updated matches Some(t) && t.valid(),
        call_ensures(state_row, (group, user, state), row),
        call_ensures(
            rows_to_states,
            (rows,),
            Ok::<Vec<(GroupId, UserId, AffectiveState)>, NekoError>(states),
        ),
        0 <= k < rows@.len(),
        rows@[k] == row,
    ensures
        states@.len() == rows@.len(),
        states@[k].0@ == group@,
        states@[k].1@ == user@,
        states@[k].2.energy == state.energy,
        states@[k].2.favorability == state.favorability,
        states@[k].2.reply_count == state.reply_count,
        states@[k].2.last_updated matches Some(t) && t.secs == state.last_updated->0.secs,
{
    crate::store::law_state_survives_storage((*group, *user, *state), row, states@[k]);
}

/// What an observer is shown of a stored message is what its row says.
pub proof fn law_observer_sees_the_row(row: StoredMessageRow, m: StoredMessage)
    requires
        call_ensures(stored_message, (row,), Ok::<StoredMessage, NekoError>(m)),
    ensures
        m.id == row.id,
        m.group_id == row.group_id,
        m.sender_id == row.sender_id,
        m.content == row.content,
        m.reply_to == row.reply_to,
        m.created_at.total() == row.created_at * 1_000_000,
{
}

/// A search gives no more than was asked for, all of it from the group. Where it gives
/// less, it has given every record of the group in which a word of the query occurs,
/// whatever its place in the query.
pub proof fn law_search_finds_every_match(
    store: &InMemoryVectorStore,
    group: &GroupId,
    query: &str,
    top_k: usize,
    res: Vec<(Single, Arc<MemoryRecord>)>,
    at: int,
    word: int,
)
    requires
        call_ensures(InMemoryVectorStore::search_with_score, (store, group, query, top_k), res),
        0 <= at < store.list().len(),
        store.list()[at].1.group_id@ == group@,
        0 <= word < words(lowered(query@)).len(),
        has_text(lowered(store.list()[at].1.text@), words(lowered(query@))[word]),
    ensures
        res@.len() <= top_k,
        forall|i: int| 0 <= i < res@.len() ==> (#[trigger] res@[i]).1.group_id@ == group@,
        res@.len() < top_k ==> exists|i: int|
            0 <= i < res@.len() && (#[trigger] res@[i]).1 == store.list()[at].1,
        res@.len() >= 1 || top_k == 0,
{
    let list = store.list();
    let q = lowered(query@);
    crate::vector_store::law_any_word_finds_record(list, group@, q, at, word);
    crate::vector_store::law_search_stays_in_group(list, group@, q, top_k as nat);
    let all = crate::vector_store::ranked(list, group@, q);
    let i = choose|i: int| 0 <= i < all.len() && (#[trigger] all[i]).1 == list[at].1;
    if res@.len() < top_k {
        assert(res@[i].1 == list[at].1);
    }
}

/// The two ways to search find the same records, in the same order.
pub proof fn law_searches_agree(
    store: &InMemoryVectorStore,
    group: &GroupId,
    query: &str,
    top_k: usize,
    scored: Vec<(Single, Arc<MemoryRecord>)>,
    found: Vec<Arc<MemoryRecord>>,
)
    requires
        call_ensures(InMemoryVectorStore::search_with_score, (store, group, query, top_k), scored),
        call_ensures(InMemoryVectorStore::search, (store, group, query, top_k), found),
    ensures
        found@.len() == scored@.len(),
        forall|i: int| 0 <= i < found@.len() ==> #[trigger] found@[i] == scored@[i].1,
{
}

/// The strength of a relationship that is told is that of a relationship between these
/// users, in this direction and of this kind.
pub proof fn law_told_strength_is_there(
    graph: &InMemoryGraphStore,
    from: &str,
    to: &str,
    kind: &str,
    res: Option<Single>,
)
    requires
        call_ensures(InMemoryGraphStore::relationship_delta, (graph, from, to, kind), res),
    ensures
        res is Some <==> exists|i: int|
            0 <= i < graph.relations().len() && (#[trigger] graph.relations()[i]).from@ == from@
                && graph.relations()[i].to@ == to@ && graph.relations()[i].kind@ == kind@,
        graph.wf() ==> forall|i: int|
            0 <= i < graph.relations().len() && (#[trigger] graph.relations()[i]).from@ == from@
                && graph.relations()[i].to@ == to@ && graph.relations()[i].kind@ == kind@
                ==> res == Some(graph.relations()[i].delta),
{
    let list = graph.relations();
    crate::graph::law_strength_is_that_of_the_relation(list, from@, to@, kind@);
    if graph.wf() {
        assert forall|i: int|
            0 <= i < list.len() && (#[trigger] list[i]).from@ == from@ && list[i].to@ == to@
                && list[i].kind@ == kind@ implies res == Some(list[i].delta) by {
            assert forall|j: int| 0 <= j < i implies !((#[trigger] list[j]).from@ == from@
                && list[j].to@ == to@ && list[j].kind@ == kind@) by {
                assert(list[j].key() != list[i].key());
            }
        }
    }
}

/// A reply to a group with a number is put together for that group, with the quote
/// first where there is one, and then its text.
pub proof fn law_reply_is_put_together(
    reply: &ReplyOut,
    n: i64,
    res: Result<GroupSend, NekoError>,
)
    requires
        reply.group_id@ == integer_text(n as int),
        call_ensures(plan_send, (reply,), res),
    ensures
        res matches Ok(send) && send.group_id == n && (send.segments@.last() matches Segment::Text(s)
            && s@ == reply.content@) && (reply.reply_to_platform matches Some(id)
            ==> send.segments@.len() == 2 && send.segments@[0] == Segment::Reply(id)) && (
        reply.reply_to_platform is None ==> send.segments@.len() == 1),
{
    law_i64_round_trip(n);
}

/// After a connection has ended badly there is a pause, shutdown or not; after one
/// that ended well there is one unless all is shut down; and without a connection one
/// is made, unless all is shut down.
pub proof fn law_connection_is_made_again(
    shutdown: bool,
    ended: Option<bool>,
    res: Connection,
)
    requires
        call_ensures(next_connection, (shutdown, ended), res),
    ensures
        ended is None && !shutdown ==> res == Connection::Connect,
        ended is None && shutdown ==> res == Connection::Stop,
        ended == Some(false) ==> res == Connection::Wait,
        ended == Some(true) && !shutdown ==> res == Connection::Wait,
        ended == Some(true) && shutdown ==> res == Connection::Stop,
{
}

/// A reply is sent to its group by number, with its text as it is.
pub proof fn law_platform_is_asked_to_send(group: &GroupId, content: &str, n: i64, res: Json)
    requires
        group@ == integer_text(n as int),
        call_ensures(build_onebot11_group_reply, (group, content), res),
    ensures
        text_at(res, "action"@) == Some("send_group_msg"@),
        res.at("params"@) matches Some(p) && integer_at(p, "group_id"@) == Some(n as int) && text_at(
            p,
            "message"@,
        ) == Some(content@),
{
    law_i64_round_trip(n);
}

/// The text of a message that is a text is that text, and the answer of one that is no
/// list is none; of a list, every text segment stands in its text.
pub proof fn law_text_and_answer_of_a_message(
    message: &Json,
    text: Option<String>,
    answer: Option<u64>,
)
    requires
        call_ensures(extract_text, (message,), text),
        call_ensures(extract_reply_to, (message,), answer),
    ensures
        *message matches Json::Text(s) ==> (text matches Some(t) && t@ == s@) && answer is None,
        !(*message is Text) && !(*message is Array) ==> text is None && answer is None,
        (*message matches Json::Array(list) && text is Some) ==> forall|k: int|
            0 <= k < (*message)->Array_0@.len() && text_at(
                #[trigger] (*message)->Array_0@[k],
                "type"@,
            ) == Some("text"@) && ((*message)->Array_0@[k].at("data"@) matches Some(d) && text_at(
                d,
                "text"@,
            ) is Some) ==> has_text(
                text->0@,
                text_at((*message)->Array_0@[k].at("data"@)->0, "text"@)->0,
            ),
{
    if let Json::Array(list) = *message {
        if text is Some {
            let segments = list@;
            let parts = crate::onebot::segment_texts(segments, segments.len() as int);
            let at = law_text_is_that_of_all_segments(segments);
            assert forall|k: int|
                0 <= k < segments.len() && text_at(#[trigger] segments[k], "type"@) == Some(
                    "text"@,
                ) && (segments[k].at("data"@) matches Some(d) && text_at(d, "text"@)
                    is Some) implies has_text(
                text->0@,
                text_at(segments[k].at("data"@)->0, "text"@)->0,
            ) by {
                assert(at.contains(k));
                let i = choose|i: int| 0 <= i < at.len() && at[i] == k;
                assert(text_at(segments[at[i]].at("data"@)->0, "text"@) == Some(parts[i]));
                crate::text::lemma_joined_has(parts, ""@, parts.len() as int, i);
            }
        }
    }
}

/// A payload of the platform that comes under another name than that of a group
/// message is not taken up; one that does is, exactly where it can be read.
pub proof fn law_only_group_events_are_taken_up(
    name: &str,
    data: &Json,
    res: Option<ChatMessage>,
)
    requires
        call_ensures(accept_event, (name, data), res),
    ensures
        res is Some ==> exists|rest: Seq<char>| name@ == #[trigger] ("message.group"@ + rest),
        res matches Some(msg) ==> msg.raw_payload == *data,
        text_at(*data, "message_type"@) != Some("group"@) ==> res is None,
        integer_at(*data, "group_id"@) is None ==> res is None,
{
    crate::text::law_occurrence_is_between(name@, "message.group"@);
}

/// The platform id that a stored payload holds is read back from it: where a payload
/// names a message by a number, a reply to it can quote that number.
pub proof fn law_quote_is_read_back(payload: &Json, n: i64, res: Option<i64>)
    requires
        call_ensures(quoted_id, (payload,), res),
        payload.at("message_id"@) matches Some(j) && {
            ||| n >= 0 && j == Json::Number(JsonNumber::Unsigned(n as u64))
            ||| n < 0 && j == Json::Number(JsonNumber::Negative(n))
            ||| j matches Json::Text(s) && s@ == integer_text(n as int)
        },
    ensures
        res == Some(n),
{
    crate::router::law_platform_id_is_read_back(*payload, n);
}

/// A reply whose quote was looked up is kept and sent with what was found, and without
/// a quote where the lookup failed; its text and its group stay.
pub proof fn law_looked_up_reply_goes_out(
    reply: ReplyOut,
    lookup: Result<Option<i64>, NekoError>,
    counted: bool,
    actions: Vec<Action>,
)
    requires
        call_ensures(resume_reply, (reply, lookup, counted), actions),
    ensures
        actions@[1] matches Action::SendOut(r) && r.content == reply.content && r.group_id
            == reply.group_id && (lookup matches Ok(found) ==> r.reply_to_platform == found) && (
        lookup is Err ==> r.reply_to_platform is None),
        actions@[0] matches Action::InsertReply(row) && row.content@ == reply.content@
            && row.message_id == reply.reply_to,
{
}

/// A reply is kept under its own id, with the message it answers, its layer and its
/// text.
pub proof fn law_reply_is_kept(reply: &ReplyOut, row: ReplyRow)
    requires
        call_ensures(persist_reply, (reply,), row),
    ensures
        row.id == reply.id,
        row.message_id == reply.reply_to,
        row.layer@ == reply.layer@,
        row.content@ == reply.content@,
{
}

/// Each part of a memory decision leads to one action, and no two records that are
/// stored have one id.
pub proof fn law_memory_decision_is_applied(decision: &MemoryDecision, actions: Vec<Action>)
    requires
        call_ensures(apply_memory_decision, (decision,), actions),
    ensures
        actions@.len() == decision.updates@.len(),
        forall|i: int, j: int, r: Arc<MemoryRecord>, s: Arc<MemoryRecord>|
            0 <= i < j < actions@.len() && (#[trigger] actions@[i]) == Action::Store(r) && (
            #[trigger] actions@[j]) == Action::Store(s) ==> #[trigger] r.id@ != #[trigger] s.id@,
{
}

/// The reply that a report leads to holds its summary, and there is one exactly where
/// the report is confident enough and says something.
pub proof fn law_report_becomes_reply(report: &DetectiveReport, res: Option<String>)
    requires
        call_ensures(compose_detective_reply, (report,), res),
    ensures
        res is Some <==> !report.confidence.below(Single { bits: 0x3f00_0000 }) && exists|k: int|
            0 <= k < report.summary@.len() && !is_space(#[trigger] report.summary@[k]),
        res is Some && report.recommended_tone == Tone::Neutral ==> res->0@ == trimmed(
            report.summary@,
        ),
{
    law_something_is_left(report.summary@);
    assert(""@ + " "@ + report.summary@ =~= seq![' '] + report.summary@) by {
        reveal_strlit("");
        reveal_strlit(" ");
    }
    crate::text::lemma_trimmed_behind_space(report.summary@);
}

/// Each event is work for the layers that it concerns, with all that it carries, and
/// for no other.
pub proof fn law_events_are_work(
    event: Event,
    council: CouncilTask,
    detective: DetectiveTask,
    solidify: SolidifyTask,
)
    requires
        call_ensures(council_task, (event,), council),
        call_ensures(detective_task, (event,), detective),
        call_ensures(solidify_task, (event,), solidify),
    ensures
        event matches Event::Escalation(_, msg, state, way) ==> council == CouncilTask::Deliberate(
            msg,
            state,
            way,
        ) && detective is Nothing && solidify is Nothing,
        event matches Event::DetectiveReport(r) ==> council == CouncilTask::Review(r) && detective
            is Nothing && solidify == SolidifyTask::Collect(r),
        event matches Event::DailyContext(text) ==> council == CouncilTask::Remember(text)
            && detective is Nothing && solidify is Nothing,
        event matches Event::DetectiveRequest(req) ==> council is Nothing && detective
            == DetectiveTask::Investigate(req) && solidify is Nothing,
        event matches Event::TopicBurst(burst) ==> council is Nothing && detective
            == DetectiveTask::Curate(burst) && solidify is Nothing,
        event is SolidifyTick ==> council is Nothing && detective is Nothing && solidify is Tick,
        event is IncomingMessage || event is AffectiveUpdated || event is ReplyOut ==> council
            is Nothing && detective is Nothing && solidify is Nothing,
{
}

/// The sweeps come at least twice a minute, and as often as the timeout is long where
/// it is shorter.
pub proof fn law_sweeps_are_frequent(config: &CouncilConfig, every: u128)
    requires
        call_ensures(CouncilConfig::sweep_every, (config,), every),
    ensures
        every <= 30_000_000_000,
        every <= config.detective_timeout,
        every == 30_000_000_000 || every == config.detective_timeout,
{
}

/// The memory is searched for the words of the message, in its group; a fact is looked
/// for in its own words before it is stored, and only where it says something; and
/// what is most like it is the first that the search found.
pub proof fn law_memory_is_searched(
    actor: &DetectiveActor,
    req: &DetectiveInput,
    query: MemoryQuery,
    report: &DetectiveReport,
    fact: &Fact,
    before: Option<MemoryQuery>,
    lookup: Result<Vec<(Single, Arc<MemoryRecord>)>, NekoError>,
    best: Option<Single>,
)
    requires
        call_ensures(DetectiveActor::memory_query, (actor, req), query),
        call_ensures(fact_query, (report, fact), before),
        call_ensures(closest, (lookup,), best),
    ensures
        query.group_id@ == req.message.group_id@,
        query.text@ == req.message.content@,
        query.top_k == actor.settings().memory_top_k,
        before is Some <==> exists|k: int|
            0 <= k < fact.text@.len() && !is_space(#[trigger] fact.text@[k]),
        before matches Some(q) ==> q.group_id@ == report.group_id@ && q.text@ == fact.text@
            && q.top_k == 1,
        lookup is Err ==> best is None,
        lookup matches Ok(hits) ==> (best is Some <==> hits@.len() > 0) && (hits@.len() > 0 ==> best
            == Some(hits@[0].0)),
{
    law_something_is_left(fact.text@);
}

/// What is learned of a report is one record for each new fact, in its words and for
/// its group, no two under one id.
pub proof fn law_facts_become_records(
    actor: &DetectiveActor,
    report: &DetectiveReport,
    similar: &Vec<Option<Single>>,
    records: Vec<MemoryRecord>,
    i: int,
    j: int,
)
    requires
        similar@.len() == report.historical_facts@.len(),
        call_ensures(DetectiveActor::learned_records, (actor, report, similar), records),
        0 <= i < j < records@.len(),
    ensures
        records@[i].id@ != records@[j].id@,
        records@[i].group_id@ == report.group_id@,
        exists|p: int, q: int|
            0 <= p < q < similar@.len() && (#[trigger] report.historical_facts@[p]).text@
                == records@[i].text@ && (#[trigger] report.historical_facts@[q]).text@
                == records@[j].text@,
{
    let at = crate::detective::law_new_facts_are_learned(
        *report,
        similar@,
        actor.settings().fact_dedup_threshold,
        records@,
    );
    assert(at[i] < at[j]);
    assert(report.historical_facts@[at[i]].text@ == records@[i].text@);
    assert(report.historical_facts@[at[j]].text@ == records@[j].text@);
}

/// A lookup that failed counts as one that found nothing.
pub proof fn law_lookups_that_fail<T>(lookup: Result<Vec<T>, NekoError>, res: Vec<T>)
    requires
        call_ensures(found_or_none::<T>, (lookup,), res),
    ensures
        lookup is Err ==> res@.len() == 0,
        lookup matches Ok(v) ==> res@ == v@,
{
}

/// An answer is tried for again only after failures that may pass, with tries left; a
/// success is one of the two hundreds, and such a failure is too many requests or a
/// fault of the provider.
pub proof fn law_tries_end(
    exchange: Exchange,
    left: u32,
    verdict: Verdict,
    status: u16,
    success: bool,
    transient: bool,
)
    requires
        call_ensures(judge, (exchange, left), verdict),
        call_ensures(is_success, (status,), success),
        call_ensures(is_transient, (status,), transient),
    ensures
        left == 0 ==> verdict is Done,
        verdict matches Verdict::Retry(then) ==> then + 1 == left,
        exchange is Answered || exchange is Undecodable ==> verdict is Done,
        exchange is SendFailed && left > 0 ==> verdict is Retry,
        success <==> 200 <= status <= 299,
        transient <==> status == 429 || 500 <= status <= 599,
        (exchange matches Exchange::Refused(s, _) && s == status && left > 0) ==> (verdict is Retry
            <==> transient),
{
}

/// The response of a model is its first choice, and there is one where it gave any.
pub proof fn law_response_is_first_choice(
    resp: ChatCompletionResponse,
    res: Result<LlmResponse, NekoError>,
)
    requires
        call_ensures(read_response, (resp,), res),
    ensures
        res is Ok <==> resp.choices@.len() > 0,
        res matches Ok(r) ==> r.content@ == resp.choices@[0].message.content@,
{
}

/// What is taken from an answer stands in it, and has no white space around it.
pub proof fn law_payload_stands_in_answer(raw: &str, res: Option<String>)
    requires
        call_ensures(extract_json, (raw,), res),
        !crate::text::begins(trimmed(raw@), "```"@),
    ensures
        res matches Some(s) && s@ == trimmed(raw@),
{
    if crate::text::begins(trimmed(raw@), "```json"@) {
        reveal_strlit("```json");
        reveal_strlit("```");
        let t = trimmed(raw@);
        assert(t.take(3) =~= t.take(7).take(3));
        assert("```json"@.take(3) =~= "```"@);
    }
}

/// The status page is served to those who ask for it, and an error to others; who asks
/// nothing gets nothing.
pub proof fn law_requests_are_answered(
    request: &Vec<u8>,
    state: &RuntimeState,
    drops: u64,
    now: Timestamp,
    version: &str,
    asked: bool,
    res: Option<String>,
)
    requires
        call_ensures(is_status_request, (request,), asked),
        call_ensures(respond, (request, state, drops, now, version), res),
    ensures
        request@.len() == 0 <==> res is None,
        res is Some && asked ==> crate::text::ends(
            res->0@,
            crate::status::status_json(*state, drops as int, now, version@),
        ),
        res is Some && !asked ==> crate::text::ends(res->0@, "{\"error\":\"not found\"}"@),
{
    if res is Some {
        let status = if asked {
            "200"@
        } else {
            "404"@
        };
        let body = if asked {
            crate::status::status_json(*state, drops as int, now, version@)
        } else {
            "{\"error\":\"not found\"}"@
        };
        let whole = res->0@;
        assert(whole == crate::status::response_text(status, body));
        let lead = whole.take(whole.len() - body.len());
        assert(whole.skip(whole.len() - body.len()) =~= body);
    }
}

/// The arguments ask for the view wherever its flag stands among them, and for ten
/// items where they name no number.
pub proof fn law_arguments_are_read(args: &Vec<String>, wants: bool, limit: usize)
    requires
        call_ensures(wants_observe, (args,), wants),
        call_ensures(observe_limit, (args,), limit),
    ensures
        wants <==> exists|k: int| 0 <= k < args@.len() && (#[trigger] args@[k])@ == "--observe"@,
        (forall|k: int| 0 <= k < args@.len() ==> (#[trigger] args@[k])@ != "--limit"@) ==> limit
            == 10,
{
    crate::observe::law_flag_is_found(args@, "--observe"@, 0);
    crate::observe::law_flag_is_found(args@, "--limit"@, 0);
}

/// The layers are set up with what the configuration says: limits, rates, thresholds
/// and names.
pub proof fn law_layers_follow_configuration(
    c: &NekoConfig,
    sensory: SensoryConfig,
    gate: GateConfig,
    bot: BotIdentity,
    interval: u128,
    valid: Result<(), NekoError>,
)
    requires
        call_ensures(NekoConfig::sensory_config, (c,), sensory),
        call_ensures(NekoConfig::gate_config, (c,), gate),
        call_ensures(NekoConfig::bot_identity, (c,), bot),
        call_ensures(NekoConfig::reply_interval, (c,), interval),
        call_ensures(NekoConfig::validate, (c,), valid),
    ensures
        sensory.batch_size == c.sqlite.batch_size,
        sensory.burst_detection_enabled == c.burst.detection_enabled,
        sensory.burst_window_sec == c.burst.window_sec,
        sensory.burst_threshold_mpm == c.burst.threshold_mpm,
        sensory.burst_threshold_participants == c.burst.threshold_participants,
        sensory.burst_threshold_gap_sec == c.burst.threshold_gap_sec,
        sensory.burst_cooldown_sec == c.burst.cooldown_sec,
        sensory.energy_decay_per_min == c.personality.energy_decay_per_min,
        sensory.favor_decay_per_min == c.personality.favor_decay_per_min,
        gate.max_message_length == c.personality.max_message_length,
        gate.max_ambient_words == c.personality.max_cozy_words,
        gate.heuristic@ == c.gate.classifier@,
        bot.qq_id == c.bot.qq_id,
        bot.name@ == c.bot.name@,
        interval == c.personality.min_reply_interval_sec * 1_000_000_000,
        valid is Ok <==> crate::config::fault(*c) is None,
        valid matches Err(e) ==> e.kind() == ErrorKind::Config,
{
}

/// Text is trimmed of the white space around it and of nothing else, split into its
/// words, and searched for others wherever they stand.
pub proof fn law_text_is_handled(
    s: &str,
    sub: &str,
    cut: String,
    parts: Vec<String>,
    held: bool,
    k: int,
)
    requires
        call_ensures(trim, (s,), cut),
        call_ensures(split_words, (s,), parts),
        call_ensures(contains, (s, sub), held),
        0 <= k < s@.len(),
        !is_space(s@[k]),
    ensures
        cut@.len() > 0 && !is_space(cut@[0]) && !is_space(cut@.last()),
        has_text(s@, cut@),
        parts@.len() > 0,
        held <==> exists|lead: Seq<char>, tail: Seq<char>| s@ == #[trigger] (lead + sub@ + tail),
{
    let (from, to) = law_trimming_takes_spaces_only(s@);
    law_something_is_left(s@);
    assert(s@.subrange(from, from + cut@.len()) =~= cut@);
    assert(crate::text::occurs_at(s@, cut@, from));
    let at = crate::text::law_words_are_the_runs(s@);
    let i = choose|i: int|
        0 <= i < words(s@).len() && #[trigger] at[i] <= k < at[i] + words(s@)[i].len();
    assert(crate::text::texts(parts@).len() == parts@.len());
    crate::text::law_occurrence_is_between(s@, sub@);
}

/// Where the updates of the graph were applied, a summary of twenty relationships is
/// made and told to the council; an error of the graph ends the tick.
pub proof fn law_graph_is_summed_up(
    applied: Result<(), NekoError>,
    next: TickStep,
    summary: Result<String, NekoError>,
    last: TickStep,
)
    requires
        call_ensures(after_apply, (applied,), next),
        call_ensures(after_summary, (summary,), last),
    ensures
        applied is Ok ==> next == TickStep::Summarise(20),
        applied matches Err(e) ==> next == TickStep::Fail(e),
        summary is Ok ==> last matches TickStep::Send(Event::DailyContext(_)),
        summary matches Err(e) ==> last == TickStep::Fail(e),
{
}

/// A decision is what the reader finds in the payload of the answer: where the answer
/// reads as `j`, it is the decision that `j` states; where it cannot be read, it is an
/// error.
pub proof fn law_answer_holds_the_decision<F: Fn(&str) -> Result<CouncilDecisionJson, String>>(
    raw: &str,
    read: &F,
    res: Result<CouncilDecision, NekoError>,
    got: Result<CouncilDecisionJson, String>,
)
    requires
        call_ensures(parse_council_decision::<F>, (raw, read), res),
        forall|x: Result<CouncilDecisionJson, String>| #[trigger]
            read_gives(*read, payload(raw@), x) ==> x == got,
    ensures
        got is Err ==> (res matches Err(e) && e.kind() == ErrorKind::Parse),
        got matches Ok(j) ==> (res is Ok <==> j.action@ == "reply"@ || j.action@ == "detective"@
            || j.action@ == "ignore"@),
        (got is Ok && res is Ok) ==> res->Ok_0.reasoning@ == got->Ok_0.reasoning@ && (
        res->Ok_0.action == CouncilAction::ReplyDirectly <==> got->Ok_0.action@ == "reply"@),
{
    if let Ok(j) = got {
        crate::council::law_decision_is_read_as_stated(j, res);
    }
}

/// A report is what the reader finds in the payload of the answer, tied to the message
/// that it was asked for; where the model failed, it is empty.
pub proof fn law_answer_holds_the_report<F: Fn(&str) -> Result<DetectiveReportJson, String>>(
    actor: &DetectiveActor,
    req: &DetectiveInput,
    answer: Result<LlmResponse, NekoError>,
    read: &F,
    res: Result<DetectiveReport, NekoError>,
    got: Result<DetectiveReportJson, String>,
)
    requires
        call_ensures(DetectiveActor::on_report_answer::<F>, (actor, req, answer, read), res),
        answer matches Ok(resp) ==> forall|x: Result<DetectiveReportJson, String>| #[trigger]
            read_gives(*read, payload(resp.content@), x) ==> x == got,
    ensures
        res matches Ok(r) ==> r.message_id == req.message.id && r.trace_id == req.message.trace_id
            && r.group_id@ == req.message.group_id@ && r.target_user@ == req.target_user@,
        answer is Err ==> (res matches Ok(r) && r.historical_facts@.len() == 0 && r.summary@.len()
            == 0 && r.confidence.bits == 0),
        answer is Ok ==> (res is Ok <==> got is Ok),
        (answer is Ok && got is Ok && res is Ok) ==> res->Ok_0.summary@
            == got->Ok_0.summary@ && res->Ok_0.historical_facts@.len()
            == got->Ok_0.historical_facts@.len() && forall|i: int|
            0 <= i < got->Ok_0.historical_facts@.len() ==> (
            #[trigger] res->Ok_0.historical_facts@[i]).text@ == got->Ok_0.historical_facts@[i].text@,
{
    if answer is Ok && res is Ok {
        let raw = answer->Ok_0.content@;
        let stated = choose|stated: DetectiveReport| #[trigger]
            crate::detective::report_read(*read, raw, Ok(stated))
                && crate::detective::same_findings(res->Ok_0, stated);
        assert(got is Ok);
        crate::detective::law_report_says_what_was_stated(stated, got->Ok_0);
    }
}

/// What is to be remembered of a heated conversation is what the reader finds in the
/// answer, for the group of the conversation; there is nothing where the model failed,
/// the answer cannot be read, or nothing is to be remembered.
pub proof fn law_answer_holds_the_memory<F: Fn(&str) -> Result<MemoryDecision, String>>(
    actor: &DetectiveActor,
    burst: &TopicBurst,
    answer: Result<LlmResponse, NekoError>,
    read: &F,
    res: Option<MemoryDecision>,
    got: Result<MemoryDecision, String>,
)
    requires
        call_ensures(DetectiveActor::on_burst_answer::<F>, (actor, burst, answer, read), res),
        answer matches Ok(resp) ==> forall|x: Result<MemoryDecision, String>| #[trigger]
            read_gives(*read, payload(resp.content@), x) ==> x == got,
    ensures
        answer is Err ==> res is None,
        answer is Ok && got is Err ==> res is None,
        (answer is Ok && got is Ok) ==> (res is Some <==> got->Ok_0.updates@.len() > 0),
        (answer is Ok && res is Some) ==> got is Ok && res->0.updates == got->Ok_0.updates
            && res->0.group_id@ == burst.group_id@,
{
}

/// The updates of the graph are what the reader finds in the payload of the answer.
pub proof fn law_answer_holds_the_updates<F: Fn(&str) -> Result<Vec<GraphUpdate>, String>>(
    raw: &str,
    read: &F,
    res: Result<Vec<GraphUpdate>, NekoError>,
    got: Result<Vec<GraphUpdate>, String>,
)
    requires
        call_ensures(parse_solidify_updates::<F>, (raw, read), res),
        forall|x: Result<Vec<GraphUpdate>, String>| #[trigger]
            read_gives(*read, payload(raw@), x) ==> x == got,
    ensures
        got matches Ok(updates) ==> res == Ok::<Vec<GraphUpdate>, NekoError>(updates),
        got is Err ==> (res matches Err(e) && e.kind() == ErrorKind::Parse),
{
}

/// What a model says of a message is done: where its answer reads as `j` and names an
/// action, that is what happens; where it fails or says nothing of use, the default
/// heuristic decides.
pub proof fn law_answer_holds_the_classification<F: Fn(&str) -> Result<GateAnswerJson, String>>(
    actor: &GateActor,
    msg: &ChatMessage,
    state: AffectiveState,
    answer: Result<LlmResponse, NekoError>,
    read: &F,
    events: Vec<Event>,
    got: Result<GateAnswerJson, String>,
)
    requires
        call_ensures(GateActor::on_model_answer::<F>, (actor, msg, state, answer, read), events),
        answer matches Ok(resp) ==> forall|x: Result<GateAnswerJson, String>| #[trigger]
            read_gives(*read, payload(resp.content@), x) ==> x == got,
    ensures
        (answer is Ok && got is Ok && got->Ok_0.action@ == "drop"@) ==> events@.len() == 1
            && events@[0] is GateDecision,
        (answer is Ok && got is Ok && got->Ok_0.action@ == "escalate"@
            && got->Ok_0.engagement_type@ == "ambient_join"@) ==> events@.len() == 2 && (events@[1]
            matches Event::Escalation(_, m, s, EngagementType::AmbientJoin) && m == *msg && s
            == state),
        (answer is Ok && got is Ok && got->Ok_0.action@ == "escalate"@
            && got->Ok_0.engagement_type@ == "personal_reply"@) ==> events@.len() == 2 && (
        events@[1] matches Event::Escalation(_, m, s, EngagementType::PersonalReply) && m == *msg
            && s == state),
        (answer is Err && msg.reply_to is Some && !crate::gate::ruled_out(*msg, actor.settings()))
            ==> events@.len() == 2 && (events@[1] matches Event::Escalation(
            _,
            m,
            _,
            EngagementType::PersonalReply,
        ) && m == *msg),
{
    reveal_strlit("drop");
    reveal_strlit("escalate");
    reveal_strlit("personal_reply");
    reveal_strlit("ambient_join");
    assert("drop"@.len() == 4 && "escalate"@.len() == 8);
    assert("personal_reply"@.len() == 14 && "ambient_join"@.len() == 12);
}

/// The model that classifies is told the latest messages of the whole group, as many as
/// are set, from before now.
pub proof fn law_classifier_looks_at_the_group(
    c: &LlmGateClassifier,
    msg: &ChatMessage,
    now: Timestamp,
    query: ContextQuery,
)
    requires
        call_ensures(LlmGateClassifier::context_query_at, (c, msg, now), query),
    ensures
        query.group_id@ == msg.group_id@,
        query.user_id is None,
        query.before == now,
        query.limit == c.context_messages,
{
}

/// The council looks at the messages of the sender where it was addressed and at those
/// of the group where it joins in; the detective at those of the user in question.
pub proof fn law_layers_look_back(
    council: &CouncilActor,
    msg: &ChatMessage,
    way: EngagementType,
    now: Timestamp,
    query: ContextQuery,
    detective: &DetectiveActor,
    req: &DetectiveInput,
    history: ContextQuery,
)
    requires
        call_ensures(CouncilActor::context_query_at, (council, msg, way, now), query),
        call_ensures(DetectiveActor::history_query_at, (detective, req, now), history),
    ensures
        query.group_id@ == msg.group_id@ && query.before == now && query.limit
            == council.settings().context_limit,
        way == EngagementType::AmbientJoin ==> query.user_id is None,
        way == EngagementType::PersonalReply ==> (query.user_id matches Some(u) && u@
            == msg.sender@),
        history.group_id@ == req.message.group_id@ && history.before == now && history.limit
            == detective.settings().history_limit,
        history.user_id matches Some(u) && u@ == req.target_user@,
{
}

/// The council's request tells the model every message that the lookup found, and the
/// nightly summary where there is one.
pub proof fn law_council_asks_with_context<G: Fn(Single) -> String>(
    council: &CouncilActor,
    msg: &ChatMessage,
    state: AffectiveState,
    lookup: Result<Vec<ChatMessage>, NekoError>,
    way: EngagementType,
    show: &G,
    req: LlmRequest,
)
    requires
        call_ensures(
            CouncilActor::council_request::<G>,
            (council, msg, state, lookup, way, show),
            req,
        ),
    ensures
        req.messages@.len() == 1,
        lookup matches Ok(context) ==> forall|i: int|
            0 <= i < context@.len() ==> has_text(
                req.messages@[0].content@,
                (#[trigger] context@[i]).nickname@ + ": "@ + context@[i].content@,
            ),
        has_text(req.messages@[0].content@, msg.content@),
        trimmed(council.daily()) == council.daily() && council.daily().len() > 0 ==> has_text(
            req.messages@[0].content@,
            council.daily(),
        ),
        req.temperature == council.settings().llm_temperature,
        req.max_tokens == Some(council.settings().llm_max_tokens),
{
    let context = crate::store::found(lookup);
    let (input, energy, favor) = choose|
        input: CouncilInput,
        energy: Seq<char>,
        favor: Seq<char>,
    |
        {
            &&& input.message == *msg
            &&& input.state == state
            &&& input.daily_context@ == council.daily()
            &&& input.engagement_type == way
            &&& #[trigger] shown_as(*show, state.energy, energy)
            &&& #[trigger] shown_as(*show, state.favorability, favor)
            &&& req.messages@[0].content@ == #[trigger] crate::council::prompt_text(
                input,
                context,
                energy,
                favor,
            )
        };
    let prompt = req.messages@[0].content@;
    crate::council::law_context_reaches_model(input, context, energy, favor);
    crate::council::law_prompt_tells_message_and_state(input, context, energy, favor);
    let lead = msg.nickname@ + "\n当前消息：\""@;
    let tail = "\"\n精力值："@ + energy + "（越高越活跃）\n好感度："@ + favor
        + "（越高越亲近）\n\n"@;
    let part = msg.nickname@ + "\n当前消息：\""@ + msg.content@ + "\"\n精力值："@ + energy
        + "（越高越活跃）\n好感度："@ + favor + "（越高越亲近）\n\n"@;
    assert(part =~= lead + msg.content@ + tail);
    lemma_occurs_between(lead, msg.content@, tail);
    lemma_has_trans(prompt, part, msg.content@);
    if trimmed(council.daily()) == council.daily() && council.daily().len() > 0 {
        crate::council::law_daily_context_reaches_prompt(
            input,
            context,
            energy,
            favor,
            council.daily(),
        );
    }
}

/// The message of an error says its kind first, and then what it says.
pub proof fn law_errors_say_their_kind(e: &NekoError, text: String)
    requires
        call_ensures(NekoError::message, (e,), text),
    ensures
        *e matches NekoError::Config(m) ==> text@ == "config error: "@ + m@,
        *e matches NekoError::Database(m) ==> text@ == "database error: "@ + m@,
        *e matches NekoError::Llm(m) ==> text@ == "llm error: "@ + m@,
        *e matches NekoError::Transport(m) ==> text@ == "transport error: "@ + m@,
        *e matches NekoError::Parse(m) ==> text@ == "parse error: "@ + m@,
        *e matches NekoError::Missing(m) ==> text@ == "missing: "@ + m@,
{
}

/// A layer that takes no more events is named in the error.
pub proof fn law_closed_layers_are_named(channel: Channel, e: NekoError)
    requires
        call_ensures(channel_closed, (channel,), e),
    ensures
        e.kind() == ErrorKind::Transport,
        channel == Channel::Sensory ==> e.detail() == "sensory routed channel closed"@,
        channel == Channel::Council ==> e.detail() == "council channel closed"@,
        channel == Channel::Detective ==> e.detail() == "detective channel closed"@,
        channel == Channel::Solidify ==> e.detail() == "solidify channel closed"@,
{
}

/// A request of a provider goes below its address to its model, with every message; one
/// for embeddings carries every text, and is not made for none.
pub proof fn law_providers_are_asked(
    client: &OpenAiCompatibleClient,
    req: &LlmRequest,
    body: ChatCompletionRequest,
    url: Result<String, NekoError>,
    embedder: &OpenAiEmbeddingClient,
    input: &Vec<String>,
    asked: Option<EmbeddingsRequest>,
)
    requires
        call_ensures(OpenAiCompatibleClient::request_body, (client, req), body),
        call_ensures(OpenAiCompatibleClient::endpoint, (client,), url),
        call_ensures(OpenAiEmbeddingClient::request_body, (embedder, input), asked),
    ensures
        body.model@ == client.asked_model(),
        body.messages@.len() == req.messages@.len(),
        forall|i: int|
            0 <= i < body.messages@.len() ==> (#[trigger] body.messages@[i]).content@
                == req.messages@[i].content@,
        url matches Ok(u) ==> url_joined(client.address().push('/'), "chat/completions"@) == Ok::<
            Seq<char>,
            Seq<char>,
        >(u@),
        asked is None <==> input@.len() == 0,
        asked matches Some(a) ==> a.input@ == input@ && a.model@ == embedder.asked_model(),
{
}

/// A message that comes in gets a trace of its own, other than its id, and says what
/// its payload says.
pub proof fn law_messages_are_traced(payload: &Json, res: Option<ChatMessage>)
    requires
        call_ensures(parse_onebot11_group_message, (payload,), res),
    ensures
        res matches Some(msg) ==> msg.trace_id != msg.id && msg.raw_payload == *payload
            && integer_at(*payload, "group_id"@) is Some && msg.group_id@ == integer_text(
            integer_at(*payload, "group_id"@)->0,
        ),
{
}

} // verus!
