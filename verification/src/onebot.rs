//! Group messages of the OneBot v11 protocol.

use vstd::prelude::*;
use vstd::string::*;
use std::sync::Arc;
use crate::clock::{Timestamp, MAX_SECS, MIN_SECS};
use crate::ident::{fresh_id_but, id_from_name, name_based_id, GroupId, MessageId};
use crate::json::{Json, JsonNumber};
use crate::number::{
    i64_read, integer_text, law_i64_round_trip, law_u64_round_trip, lemma_integer_text_chars,
    parse_i64, parse_u64, signed_to_text, u64_read, unsigned_to_text,
};
use crate::text::{begins, join, joined, same, starts_with, texts};
use crate::types::ChatMessage;

verus! {

/// The namespace in which the ids of messages are derived.
pub const NAMESPACE_ONEBOT: u128 = 0x6ba7_b810_9dad_11d1_80b4_00c0_4fd4_30c8;

/// The name of a message: its group and the id that the platform gave it.
pub open spec fn message_name(group: Seq<char>, platform: Seq<char>) -> Seq<char> {
    group + seq![':'] + platform
}

/// The id of a message.
pub open spec fn derived_id(group: Seq<char>, platform: Seq<char>) -> MessageId {
    name_based_id(NAMESPACE_ONEBOT, message_name(group, platform))
}

/// Derives the id of a message from its group and the id that the platform
/// gave it, so that a message that is delivered again keeps its id.
pub fn derive_message_id(group_id: &str, platform_message_id: &str) -> (res: MessageId)
    ensures
        res == derived_id(group_id@, platform_message_id@),
{
    let mut name: String = group_id.to_string();
    name.push(':');
    name.append(platform_message_id);
    assert(name@ =~= message_name(group_id@, platform_message_id@));
    id_from_name(NAMESPACE_ONEBOT, name.as_str())
}

/// The text under `key`.
pub open spec fn text_at(j: Json, key: Seq<char>) -> Option<Seq<char>> {
    match j.at(key) {
        Some(v) => v.text(),
        None => None,
    }
}

/// The integer under `key`.
pub open spec fn integer_at(j: Json, key: Seq<char>) -> Option<int> {
    match j.at(key) {
        Some(v) => v.integer(),
        None => None,
    }
}

/// The text of a segment that is a text.
pub open spec fn segment_text(seg: Json) -> Option<Seq<char>> {
    if text_at(seg, "type"@) == Some("text"@) {
        match seg.at("data"@) {
            Some(data) => text_at(data, "text"@),
            None => None,
        }
    } else {
        None
    }
}

/// The texts among the first `n` segments.
pub open spec fn segment_texts(segments: Seq<Json>, n: int) -> Seq<Seq<char>>
    decreases n,
{
    if n <= 0 {
        Seq::empty()
    } else {
        match segment_text(segments[n - 1]) {
            Some(t) => segment_texts(segments, n - 1).push(t),
            None => segment_texts(segments, n - 1),
        }
    }
}

/// The text of a message: a plain text as it is, or the texts of its segments
/// one after the other.
pub open spec fn message_text(message: Json) -> Option<Seq<char>> {
    match message {
        Json::Text(s) => Some(s@),
        Json::Array(segments) => {
            let parts = segment_texts(segments@, segments@.len() as int);
            if parts.len() == 0 {
                None
            } else {
                Some(joined(parts, ""@))
            }
        },
        _ => None,
    }
}

/// The platform id that a segment refers to.
pub open spec fn segment_reference(seg: Json) -> Option<int> {
    match seg.at("data"@) {
        Some(data) => match data.at("id"@) {
            Some(Json::Number(JsonNumber::Unsigned(n))) => Some(n as int),
            Some(Json::Text(s)) => match u64_read(s@) {
                Ok(n) => Some(n),
                Err(_) => None,
            },
            _ => None,
        },
        None => None,
    }
}

/// The platform id that the first reply segment, from position `from` on,
/// refers to.
pub open spec fn reply_reference(segments: Seq<Json>, from: int) -> Option<int>
    decreases segments.len() - from,
{
    if from < 0 || from >= segments.len() {
        None
    } else if text_at(segments[from], "type"@) == Some("reply"@) {
        segment_reference(segments[from])
    } else {
        reply_reference(segments, from + 1)
    }
}

/// The platform id of the message that a message answers.
pub open spec fn answered(message: Json) -> Option<int> {
    match message {
        Json::Array(segments) => reply_reference(segments@, 0),
        _ => None,
    }
}

/// Whether the text under `key` is `wanted`.
pub(crate) fn text_is(j: &Json, key: &str, wanted: &str) -> (res: bool)
    ensures
        res == (text_at(*j, key@) == Some(wanted@)),
{
    match j.get(key) {
        Some(v) => match v.as_str() {
            Some(s) => same(s, wanted),
            None => false,
        },
        None => false,
    }
}

/// The platform id of the message that a message answers.
pub fn extract_reply_to(message: &Json) -> (res: Option<u64>)
    ensures
        match res {
            Some(n) => answered(*message) == Some(n as int),
            None => answered(*message) is None,
        },
{
    let segments: &Vec<Json> = match message.as_array() {
        Some(v) => v,
        None => {
            return None;
        },
    };
    let mut i: usize = 0;
    while i < segments.len()
        invariant
            0 <= i <= segments@.len(),
            answered(*message) == reply_reference(segments@, i as int),
        decreases segments@.len() - i,
    {
        if text_is(&segments[i], "type", "reply") {
            let data: &Json = match segments[i].get("data") {
                Some(d) => d,
                None => {
                    return None;
                },
            };
            return match data.get("id") {
                Some(Json::Number(JsonNumber::Unsigned(n))) => Some(*n),
                Some(Json::Text(s)) => match parse_u64(s.as_str()) {
                    Ok(n) => Some(n),
                    Err(_) => None,
                },
                _ => None,
            };
        }
        i = i + 1;
    }
    None
}

/// The text of a message.
pub fn extract_text(message: &Json) -> (res: Option<String>)
    ensures
        match res {
            Some(s) => message_text(*message) == Some(s@),
            None => message_text(*message) is None,
        },
{
    match message {
        Json::Text(s) => Some(s.clone()),
        Json::Array(shared) => {
            let segments: &Vec<Json> = shared;
            let mut parts: Vec<String> = Vec::new();
            let mut i: usize = 0;
            assert(texts(parts@) =~= segment_texts(segments@, 0));
            while i < segments.len()
                invariant
                    0 <= i <= segments@.len(),
                    texts(parts@) == segment_texts(segments@, i as int),
                decreases segments@.len() - i,
            {
                let ghost before = parts@;
                if text_is(&segments[i], "type", "text") {
                    if let Some(data) = segments[i].get("data") {
                        if let Some(text) = data.get("text") {
                            if let Some(s) = text.as_str() {
                                parts.push(s.to_string());
                                assert(texts(parts@) =~= texts(before).push(s@));
                            }
                        }
                    }
                }
                i = i + 1;
            }
            assert(texts(parts@).len() == parts@.len());
            if parts.len() == 0 {
                None
            } else {
                Some(join(&parts, ""))
            }
        },
        _ => None,
    }
}

/// What a payload says of the message it carries.
pub ghost struct Parts {
    pub group: int,
    pub user: int,
    pub platform: Seq<char>,
    pub content: Seq<char>,
    pub nickname: Seq<char>,
    pub time: Timestamp,
    pub answers: Option<int>,
}

/// The platform id of a message: a number as it is written, or a text.
pub open spec fn platform_id(j: Json) -> Option<Seq<char>> {
    match j {
        Json::Number(n) => Some(n.shown()),
        Json::Text(s) => Some(s@),
        _ => None,
    }
}

/// The point `millis` milliseconds after the Unix epoch, where the calendar
/// covers it.
pub open spec fn point_at(millis: int) -> Option<Timestamp> {
    if MIN_SECS <= millis / 1000 <= MAX_SECS {
        Some(
            Timestamp { secs: (millis / 1000) as i64, nanos: ((millis % 1000) * 1_000_000) as u32 },
        )
    } else {
        None
    }
}

/// When a message was sent: the second it names, or else the whole
/// milliseconds of `now`.
pub open spec fn sent_at(payload: Json, now: Timestamp) -> Option<Timestamp> {
    match integer_at(payload, "time"@) {
        Some(t) => point_at(t * 1000),
        None => point_at(now.whole_millis()),
    }
}

/// The nickname of the sender, empty where there is none.
pub open spec fn nickname_of(payload: Json) -> Seq<char> {
    match payload.at("sender"@) {
        Some(sender) => match text_at(sender, "nickname"@) {
            Some(n) => n,
            None => Seq::empty(),
        },
        None => Seq::empty(),
    }
}

/// What `payload` says, where it carries a group message and came in at `now`.
pub open spec fn parts_of(payload: Json, now: Timestamp) -> Option<Parts> {
    if text_at(payload, "post_type"@) == Some("message"@) && text_at(payload, "message_type"@)
        == Some("group"@) {
        match (
            integer_at(payload, "group_id"@),
            integer_at(payload, "user_id"@),
            payload.at("message_id"@),
            payload.at("message"@),
        ) {
            (Some(group), Some(user), Some(id), Some(message)) => match (
                platform_id(id),
                message_text(message),
                sent_at(payload, now),
            ) {
                (Some(platform), Some(content), Some(time)) => Some(
                    Parts {
                        group,
                        user,
                        platform,
                        content,
                        nickname: nickname_of(payload),
                        time,
                        answers: answered(message),
                    },
                ),
                _ => None,
            },
            _ => None,
        }
    } else {
        None
    }
}

/// `msg` is the message of `payload` with the parts `p`.
pub open spec fn made_of(msg: ChatMessage, p: Parts, payload: Json, trace_id: MessageId) -> bool {
    &&& msg.id == derived_id(integer_text(p.group), p.platform)
    &&& msg.trace_id == trace_id
    &&& msg.group_id@ == integer_text(p.group)
    &&& msg.sender@ == integer_text(p.user)
    &&& msg.nickname@ == p.nickname
    &&& msg.content@ == p.content
    &&& msg.timestamp == p.time
    &&& msg.reply_to == match p.answers {
        Some(n) => Some(derived_id(integer_text(p.group), integer_text(n))),
        None => None,
    }
    &&& msg.raw_payload == payload
}

/// The integer under `key`.
fn get_i64(j: &Json, key: &str) -> (res: Option<i64>)
    ensures
        match res {
            Some(n) => integer_at(*j, key@) == Some(n as int),
            None => integer_at(*j, key@) is None,
        },
{
    match j.get(key) {
        Some(v) => v.as_i64(),
        None => None,
    }
}

/// The nickname of the sender.
fn get_nickname(payload: &Json) -> (res: String)
    ensures
        res@ == nickname_of(*payload),
{
    if let Some(sender) = payload.get("sender") {
        if let Some(nickname) = sender.get("nickname") {
            if let Some(s) = nickname.as_str() {
                return s.to_string();
            }
        }
    }
    String::new()
}

/// When a message was sent.
fn get_time(payload: &Json, now: &Timestamp) -> (res: Option<Timestamp>)
    requires
        now.valid(),
    ensures
        res == sent_at(*payload, *now),
{
    match get_i64(payload, "time") {
        Some(t) => {
            if MIN_SECS <= t && t <= MAX_SECS {
                Timestamp::of_millis(t * 1000)
            } else {
                None
            }
        },
        None => Timestamp::of_millis(now.millis()),
    }
}

/// Reads the group message that `payload` carries, which came in at `now`.
pub fn read_group_message(payload: &Json, now: Timestamp, trace_id: MessageId) -> (res: Option<
    ChatMessage,
>)
    requires
        now.valid(),
    ensures
        match res {
            Some(msg) => parts_of(*payload, now) is Some && made_of(
                msg,
                parts_of(*payload, now)->0,
                *payload,
                trace_id,
            ) && msg.timestamp.valid(),
            None => parts_of(*payload, now) is None,
        },
{
    if !text_is(payload, "post_type", "message") {
        return None;
    }
    if !text_is(payload, "message_type", "group") {
        return None;
    }
    let group: i64 = match get_i64(payload, "group_id") {
        Some(n) => n,
        None => {
            return None;
        },
    };
    let user: i64 = match get_i64(payload, "user_id") {
        Some(n) => n,
        None => {
            return None;
        },
    };
    let platform: String = match payload.get("message_id") {
        Some(Json::Number(n)) => n.to_text(),
        Some(Json::Text(s)) => s.clone(),
        _ => {
            return None;
        },
    };
    let message: &Json = match payload.get("message") {
        Some(m) => m,
        None => {
            return None;
        },
    };
    let content: String = match extract_text(message) {
        Some(s) => s,
        None => {
            return None;
        },
    };
    let timestamp: Timestamp = match get_time(payload, &now) {
        Some(t) => t,
        None => {
            return None;
        },
    };
    let group_id: String = signed_to_text(group);
    let id: MessageId = derive_message_id(group_id.as_str(), platform.as_str());
    let reply_to: Option<MessageId> = match extract_reply_to(message) {
        Some(n) => Some(
            derive_message_id(group_id.as_str(), unsigned_to_text(n as u128).as_str()),
        ),
        None => None,
    };
    Some(
        ChatMessage {
            id,
            trace_id,
            group_id,
            sender: signed_to_text(user),
            nickname: get_nickname(payload),
            content,
            timestamp,
            reply_to,
            raw_payload: payload.clone(),
        },
    )
}

/// Reads the group message that `payload` carries, if it carries one. The
/// message gets a fresh trace id, and the current time where it names none.
pub fn parse_onebot11_group_message(payload: &Json) -> (res: Option<ChatMessage>)
    ensures
        exists|now: Timestamp| #[trigger]
            now.valid() && match res {
                Some(msg) => parts_of(*payload, now) is Some && made_of(
                    msg,
                    parts_of(*payload, now)->0,
                    *payload,
                    msg.trace_id,
                ) && msg.timestamp.valid() && msg.trace_id != msg.id,
                None => parts_of(*payload, now) is None,
            },
{
    let now: Timestamp = Timestamp::now();
    assert(now.valid());
    match read_group_message(payload, now, 0) {
        Some(msg) => Some(
            ChatMessage {
                id: msg.id,
                trace_id: fresh_id_but(msg.id),
                group_id: msg.group_id,
                sender: msg.sender,
                nickname: msg.nickname,
                content: msg.content,
                timestamp: msg.timestamp,
                reply_to: msg.reply_to,
                raw_payload: msg.raw_payload,
            },
        ),
        None => None,
    }
}

/// Reads the message of an event of the platform, if the event is a group
/// message by its name.
pub fn accept_event(name: &str, data: &Json) -> (res: Option<ChatMessage>)
    ensures
        exists|now: Timestamp| #[trigger]
            now.valid() && match res {
                Some(msg) => begins(name@, "message.group"@) && parts_of(*data, now) is Some
                    && made_of(msg, parts_of(*data, now)->0, *data, msg.trace_id)
                    && msg.timestamp.valid() && msg.trace_id != msg.id,
                None => !begins(name@, "message.group"@) || parts_of(*data, now) is None,
            },
{
    if starts_with(name, "message.group") {
        parse_onebot11_group_message(data)
    } else {
        assert((Timestamp { secs: 0, nanos: 0 }).valid());
        None
    }
}

/// A JSON integer.
fn json_integer(n: i64) -> (res: Json)
    ensures
        res.integer() == Some(n as int),
{
    if n < 0 {
        Json::Number(JsonNumber::Negative(n))
    } else {
        Json::Number(JsonNumber::Unsigned(n as u64))
    }
}

/// A JSON object of two members.
pub(crate) fn json_pair(first_key: &str, first: Json, second_key: &str, second: Json) -> (res: Json)
    requires
        first_key@ != second_key@,
    ensures
        res.at(first_key@) == Some(first),
        res.at(second_key@) == Some(second),
        res is Object && res->Object_0@.len() == 2,
{
    let mut members: Vec<(String, Json)> = Vec::new();
    members.push((first_key.to_string(), first));
    members.push((second_key.to_string(), second));
    proof {
        reveal_with_fuel(crate::json::member, 3);
    }
    Json::Object(Arc::new(members))
}

/// The group that a reply goes to: the group id read as an integer, or zero.
pub open spec fn target_group(group_id: Seq<char>) -> int {
    match i64_read(group_id) {
        Ok(n) => n,
        Err(_) => 0,
    }
}

/// Builds the action that sends `content` to a group.
pub fn build_onebot11_group_reply(group_id: &GroupId, content: &str) -> (res: Json)
    ensures
        res is Object && res->Object_0@.len() == 2,
        text_at(res, "action"@) == Some("send_group_msg"@),
        match res.at("params"@) {
            Some(params) => params is Object && params->Object_0@.len() == 2 && integer_at(
                params,
                "group_id"@,
            ) == Some(target_group(group_id@)) && text_at(params, "message"@) == Some(content@),
            None => false,
        },
{
    let target: i64 = match parse_i64(group_id.as_str()) {
        Ok(n) => n,
        Err(_) => 0,
    };
    proof {
        reveal_strlit("group_id");
        reveal_strlit("message");
        reveal_strlit("action");
        reveal_strlit("params");
        assert("group_id"@.len() != "message"@.len());
        assert("action"@[0] != "params"@[0]);
    }
    let params: Json = json_pair(
        "group_id",
        json_integer(target),
        "message",
        Json::Text(content.to_string()),
    );
    json_pair("action", Json::Text("send_group_msg".to_string()), "params", params)
}

/// Messages of different groups, or with different platform ids, have
/// different names.
pub proof fn law_names_differ(g1: i64, p1: Seq<char>, g2: i64, p2: Seq<char>)
    requires
        message_name(integer_text(g1 as int), p1) == message_name(integer_text(g2 as int), p2),
    ensures
        g1 == g2,
        p1 == p2,
{
    let t1 = integer_text(g1 as int);
    let t2 = integer_text(g2 as int);
    let n1 = message_name(t1, p1);
    let n2 = message_name(t2, p2);
    lemma_integer_text_chars(g1 as int);
    lemma_integer_text_chars(g2 as int);
    assert(n1[t1.len() as int] == ':');
    assert(n2[t2.len() as int] == ':');
    if t1.len() < t2.len() {
        assert(n2[t1.len() as int] == t2[t1.len() as int]);
        assert(false);
    }
    if t2.len() < t1.len() {
        assert(n1[t2.len() as int] == t1[t2.len() as int]);
        assert(false);
    }
    assert(t1 =~= n1.take(t1.len() as int));
    assert(t2 =~= n2.take(t2.len() as int));
    assert(p1 =~= n1.skip(t1.len() as int + 1));
    assert(p2 =~= n2.skip(t2.len() as int + 1));
    law_i64_round_trip(g1);
    law_i64_round_trip(g2);
}

/// A message that is delivered again, at whatever time, keeps its id and the
/// id of the message it answers.
pub proof fn law_redelivery_keeps_id(
    payload: Json,
    now1: Timestamp,
    trace1: MessageId,
    first: ChatMessage,
    now2: Timestamp,
    trace2: MessageId,
    second: ChatMessage,
)
    requires
        parts_of(payload, now1) is Some,
        made_of(first, parts_of(payload, now1)->0, payload, trace1),
        parts_of(payload, now2) is Some,
        made_of(second, parts_of(payload, now2)->0, payload, trace2),
    ensures
        first.id == second.id,
        first.reply_to == second.reply_to,
        first.group_id@ == second.group_id@,
        first.sender@ == second.sender@,
        first.content@ == second.content@,
{
}

/// The id of a message rests on its group and its platform id alone: whatever
/// else two payloads say, and whenever they came in, these give the same id.
pub proof fn law_id_rests_on_group_and_number(
    payload1: Json,
    now1: Timestamp,
    trace1: MessageId,
    first: ChatMessage,
    payload2: Json,
    now2: Timestamp,
    trace2: MessageId,
    second: ChatMessage,
)
    requires
        parts_of(payload1, now1) is Some,
        made_of(first, parts_of(payload1, now1)->0, payload1, trace1),
        parts_of(payload2, now2) is Some,
        made_of(second, parts_of(payload2, now2)->0, payload2, trace2),
        integer_at(payload1, "group_id"@) == integer_at(payload2, "group_id"@),
        platform_id(payload1.at("message_id"@)->0) == platform_id(payload2.at("message_id"@)->0),
    ensures
        first.id == second.id,
        first.group_id@ == second.group_id@,
{
}

/// `j` is the number `n`, or its decimal notation as a text.
pub open spec fn names_number(j: Json, n: u64) -> bool {
    match j {
        Json::Number(number) => number == JsonNumber::Unsigned(n),
        Json::Text(s) => s@ == integer_text(n as int),
        _ => false,
    }
}

/// The first reply segment stands at position `at`, and refers to the number
/// `n`.
pub open spec fn first_reply_names(segments: Seq<Json>, at: int, n: u64) -> bool {
    &&& 0 <= at < segments.len()
    &&& forall|k: int|
        0 <= k < at ==> text_at(#[trigger] segments[k], "type"@) != Some("reply"@)
    &&& text_at(segments[at], "type"@) == Some("reply"@)
    &&& segments[at].at("data"@) matches Some(data) && data.at("id"@) matches Some(id)
        && names_number(id, n)
}

/// An answer refers to the message it answers: where a message of a group has
/// the number `n`, and the first reply segment of another names `n`, each as a
/// number or as a text, the second refers to the id of the first.
pub proof fn law_answer_refers_to_message(
    n: u64,
    payload: Json,
    now1: Timestamp,
    trace1: MessageId,
    message: ChatMessage,
    answer_payload: Json,
    segments: Seq<Json>,
    at: int,
    now2: Timestamp,
    trace2: MessageId,
    answer: ChatMessage,
)
    requires
        parts_of(payload, now1) is Some,
        made_of(message, parts_of(payload, now1)->0, payload, trace1),
        payload.at("message_id"@) matches Some(id) && names_number(id, n),
        parts_of(answer_payload, now2) is Some,
        made_of(answer, parts_of(answer_payload, now2)->0, answer_payload, trace2),
        integer_at(answer_payload, "group_id"@) == integer_at(payload, "group_id"@),
        answer_payload.at("message"@) matches Some(Json::Array(list)) && list@ == segments,
        first_reply_names(segments, at, n),
    ensures
        answer.reply_to == Some(message.id),
{
    law_u64_round_trip(n);
    lemma_first_reply(segments, 0, at);
    assert(segment_reference(segments[at]) == Some(n as int));
}

proof fn lemma_first_reply(segments: Seq<Json>, from: int, at: int)
    requires
        0 <= from <= at < segments.len(),
        forall|k: int|
            0 <= k < at ==> text_at(#[trigger] segments[k], "type"@) != Some("reply"@),
        text_at(segments[at], "type"@) == Some("reply"@),
    ensures
        reply_reference(segments, from) == segment_reference(segments[at]),
    decreases at - from,
{
    if from < at {
        lemma_first_reply(segments, from + 1, at);
    }
}

/// A payload is taken up as a group message exactly where it says that it is one,
/// names a group and a user by integers, has an id that is a number or a text, holds
/// some text, and was sent at a time that the calendar covers.
pub proof fn law_what_is_a_group_message(payload: Json, now: Timestamp)
    ensures
        parts_of(payload, now) is Some <==> {
            &&& text_at(payload, "post_type"@) == Some("message"@)
            &&& text_at(payload, "message_type"@) == Some("group"@)
            &&& integer_at(payload, "group_id"@) is Some
            &&& integer_at(payload, "user_id"@) is Some
            &&& payload.at("message_id"@) matches Some(id) && (id is Number || id is Text)
            &&& payload.at("message"@) matches Some(m) && message_text(m) is Some
            &&& sent_at(payload, now) is Some
        },
{
}

/// A message says what its payload says: its group and its sender by their numbers,
/// its text, the name of its sender, and the payload itself; it is dated by the
/// second that is named, and by the clock, in whole milliseconds, where none is.
pub proof fn law_message_says_what_payload_says(
    payload: Json,
    now: Timestamp,
    trace: MessageId,
    msg: ChatMessage,
)
    requires
        now.valid(),
        parts_of(payload, now) is Some,
        made_of(msg, parts_of(payload, now)->0, payload, trace),
    ensures
        integer_at(payload, "group_id"@) matches Some(n) && msg.group_id@ == integer_text(n),
        integer_at(payload, "user_id"@) matches Some(n) && msg.sender@ == integer_text(n),
        payload.at("message"@) matches Some(m) && message_text(m) == Some(msg.content@),
        payload.at("message"@) matches Some(Json::Text(s)) ==> msg.content@ == s@,
        (payload.at("sender"@) matches Some(s) && text_at(s, "nickname"@) matches Some(n))
            ==> text_at(payload.at("sender"@)->0, "nickname"@) == Some(msg.nickname@),
        payload.at("sender"@) is None ==> msg.nickname@.len() == 0,
        integer_at(payload, "time"@) matches Some(t) ==> msg.timestamp.secs == t
            && msg.timestamp.nanos == 0,
        integer_at(payload, "time"@) is None ==> msg.timestamp.secs == now.secs
            && msg.timestamp.nanos <= now.nanos < msg.timestamp.nanos + 1_000_000,
        msg.raw_payload == payload,
        msg.trace_id == trace,
        !(payload.at("message"@) matches Some(Json::Array(_))) ==> msg.reply_to is None,
{
    if let Some(t) = integer_at(payload, "time"@) {
        assert((t * 1000) / 1000 == t && (t * 1000) % 1000 == 0);
    } else {
        let m = now.whole_millis();
        assert(m / 1000 == now.secs && m % 1000 == now.nanos as int / 1_000_000);
    }
}

/// The text of a message of segments is that of its text segments, all of them, in
/// order and with nothing between: `at` are their places. A message without any has
/// no text.
pub proof fn law_text_is_that_of_all_segments(segments: Seq<Json>) -> (at: Seq<int>)
    ensures
        at.len() == segment_texts(segments, segments.len() as int).len(),
        forall|i: int|
            0 <= i < at.len() ==> {
                &&& 0 <= #[trigger] at[i] < segments.len()
                &&& text_at(segments[at[i]], "type"@) == Some("text"@)
                &&& segments[at[i]].at("data"@) matches Some(d) && text_at(d, "text"@) == Some(
                    segment_texts(segments, segments.len() as int)[i],
                )
            },
        forall|i: int, j: int| 0 <= i < j < at.len() ==> #[trigger] at[i] < #[trigger] at[j],
        forall|p: int|
            0 <= p < segments.len() && text_at(#[trigger] segments[p], "type"@) == Some("text"@) && (
            segments[p].at("data"@) matches Some(d) && text_at(d, "text"@) is Some) ==> at.contains(
                p,
            ),
{
    lemma_segment_places(segments, segments.len() as int)
}

proof fn lemma_segment_places(segments: Seq<Json>, n: int) -> (at: Seq<int>)
    requires
        0 <= n <= segments.len(),
    ensures
        at.len() == segment_texts(segments, n).len(),
        forall|i: int|
            0 <= i < at.len() ==> {
                &&& 0 <= #[trigger] at[i] < n
                &&& text_at(segments[at[i]], "type"@) == Some("text"@)
                &&& segments[at[i]].at("data"@) matches Some(d) && text_at(d, "text"@) == Some(
                    segment_texts(segments, n)[i],
                )
            },
        forall|i: int, j: int| 0 <= i < j < at.len() ==> #[trigger] at[i] < #[trigger] at[j],
        forall|p: int|
            0 <= p < n && text_at(#[trigger] segments[p], "type"@) == Some("text"@) && (
            segments[p].at("data"@) matches Some(d) && text_at(d, "text"@) is Some) ==> at.contains(
                p,
            ),
    decreases n,
{
    if n == 0 {
        Seq::empty()
    } else {
        let before = lemma_segment_places(segments, n - 1);
        let all = segment_texts(segments, n);
        let more = all.len() > before.len();
        let at = if more {
            before.push(n - 1)
        } else {
            before
        };
        assert forall|i: int| 0 <= i < at.len() implies {
            &&& 0 <= #[trigger] at[i] < n
            &&& text_at(segments[at[i]], "type"@) == Some("text"@)
            &&& segments[at[i]].at("data"@) matches Some(d) && text_at(d, "text"@) == Some(all[i])
        } by {
            if i < before.len() {
                assert(at[i] == before[i]);
            }
        }
        assert forall|i: int, j: int| 0 <= i < j < at.len() implies #[trigger] at[i]
            < #[trigger] at[j] by {
            assert(at[i] == before[i]);
            if j < before.len() {
                assert(at[j] == before[j]);
            }
        }
        assert forall|p: int|
            0 <= p < n && text_at(#[trigger] segments[p], "type"@) == Some("text"@) && (
            segments[p].at("data"@) matches Some(d) && text_at(d, "text"@)
                is Some) implies at.contains(p) by {
            if p < n - 1 {
                assert(before.contains(p));
                let i = choose|i: int| 0 <= i < before.len() && before[i] == p;
                assert(at[i] == p);
            } else {
                assert(at[before.len() as int] == p);
            }
        }
        at
    }
}

/// A message of segments has a text exactly where it has a text segment; the text is
/// theirs, one behind the other. A message that is a text is its own text.
pub proof fn law_text_of_a_message(message: Json)
    ensures
        message matches Json::Text(s) ==> message_text(message) == Some(s@),
        message matches Json::Array(list) ==> (message_text(message) is Some <==> segment_texts(
            list@,
            list@.len() as int,
        ).len() > 0),
        (message matches Json::Array(list) && message_text(message) is Some) ==> message_text(
            message,
        ) == Some(joined(segment_texts(message->Array_0@, message->Array_0@.len() as int), ""@)),
        !(message is Text) && !(message is Array) ==> message_text(message) is None,
{
}

/// The id of a message is derived from its group and its platform id, with a colon
/// between them, and the id of what it answers in the same way.
pub proof fn law_ids_are_derived(
    payload: Json,
    now: Timestamp,
    trace: MessageId,
    msg: ChatMessage,
)
    requires
        parts_of(payload, now) is Some,
        made_of(msg, parts_of(payload, now)->0, payload, trace),
    ensures
        payload.at("message_id"@) matches Some(Json::Text(s)) ==> msg.id == name_based_id(
            0x6ba7_b810_9dad_11d1_80b4_00c0_4fd4_30c8,
            msg.group_id@ + seq![':'] + s@,
        ),
        payload.at("message_id"@) matches Some(Json::Number(JsonNumber::Unsigned(n))) ==> msg.id
            == name_based_id(
            0x6ba7_b810_9dad_11d1_80b4_00c0_4fd4_30c8,
            msg.group_id@ + seq![':'] + integer_text(n as int),
        ),
        (payload.at("message"@) matches Some(m) && answered(m) matches Some(n)) ==> msg.reply_to
            == Some(
            name_based_id(
                0x6ba7_b810_9dad_11d1_80b4_00c0_4fd4_30c8,
                msg.group_id@ + seq![':'] + integer_text(answered(payload.at("message"@)->0)->0),
            ),
        ),
        (payload.at("message"@) matches Some(m) && answered(m) is None) ==> msg.reply_to is None,
{
}

/// A message without a reply segment answers nothing.
pub proof fn law_no_reply_segment_no_answer(segments: Seq<Json>, from: int)
    requires
        0 <= from,
        forall|k: int|
            from <= k < segments.len() ==> text_at(#[trigger] segments[k], "type"@) != Some(
                "reply"@,
            ),
    ensures
        reply_reference(segments, from) is None,
    decreases segments.len() - from,
{
    if from < segments.len() {
        law_no_reply_segment_no_answer(segments, from + 1);
    }
}

/// A reply goes to the group whose number its id is.
pub proof fn law_reply_goes_to_its_group(n: i64)
    ensures
        target_group(integer_text(n as int)) == n,
{
    law_i64_round_trip(n);
}

} // verus!
