//! The history store: rows of the tables, and what they stand for.

use vstd::prelude::*;
use vstd::string::*;
use crate::clock::Timestamp;
use crate::error::{detailed, ErrorKind, NekoError};
use crate::ident::{hyphenated, id_read, id_text, parse_id, reads_as, GroupId, MessageId, UserId};
use crate::json::{float_free, json_read, json_shown, reads_back, was_read, Json};
use crate::onebot::point_at;
use crate::single::Single;
use crate::types::{AffectiveState, ChatMessage};

verus! {

/// A row of the table of messages.
#[derive(Debug, Clone)]
pub struct MessageRow {
    pub id: String,
    pub group_id: String,
    pub sender_id: String,
    pub sender_nick: Option<String>,
    pub content: String,
    pub reply_to: Option<String>,
    pub created_at: i64,
    pub raw_payload: String,
}

/// A row of the table of states.
#[derive(Debug, Clone)]
pub struct AffectiveRow {
    pub group_id: String,
    pub user_id: String,
    pub energy: Single,
    pub favorability: Single,
    pub reply_count: i64,
    pub updated_at: i64,
}

/// A message as it is shown to an observer.
#[derive(Debug, Clone)]
pub struct StoredMessage {
    pub id: String,
    pub group_id: GroupId,
    pub sender_id: UserId,
    pub sender_nick: Option<String>,
    pub content: String,
    pub reply_to: Option<String>,
    pub created_at: Timestamp,
}

/// A reply as it is shown to an observer.
#[derive(Debug, Clone)]
pub struct StoredReply {
    pub id: String,
    pub message_id: String,
    pub layer: String,
    pub content: String,
    pub sent_at: Timestamp,
}

/// An event as it is shown to an observer.
#[derive(Debug, Clone)]
pub struct StoredEvent {
    pub id: String,
    pub kind: String,
    pub payload: Json,
    pub created_at: Timestamp,
}

/// The row holds the message: its id reads as the message's, and so on.
pub open spec fn holds(row: MessageRow, msg: ChatMessage) -> bool {
    &&& reads_as(row.id@, msg.id)
    &&& row.group_id@ == msg.group_id@
    &&& row.sender_id@ == msg.sender@
    &&& row.sender_nick matches Some(n) && n@ == msg.nickname@
    &&& row.content@ == msg.content@
    &&& match (row.reply_to, msg.reply_to) {
        (Some(s), Some(id)) => reads_as(s@, id),
        (None, None) => true,
        _ => false,
    }
    &&& row.created_at == msg.timestamp.whole_millis()
    &&& row.raw_payload@ == json_shown(msg.raw_payload)
    &&& reads_back(row.raw_payload@, msg.raw_payload)
}

/// How an id is written in a table.
pub fn id_column(id: MessageId) -> (res: String)
    ensures
        res@ == hyphenated(id),
        reads_as(res@, id),
{
    id_text(id)
}

/// The row of a message.
pub fn message_row(msg: &ChatMessage) -> (res: MessageRow)
    requires
        msg.timestamp.valid(),
    ensures
        holds(res, *msg),
{
    MessageRow {
        id: id_text(msg.id),
        group_id: msg.group_id.clone(),
        sender_id: msg.sender.clone(),
        sender_nick: Some(msg.nickname.clone()),
        content: msg.content.clone(),
        reply_to: match msg.reply_to {
            Some(id) => Some(id_text(id)),
            None => None,
        },
        created_at: msg.timestamp.millis(),
        raw_payload: msg.raw_payload.to_text(),
    }
}

/// What is wrong with a row of the table of messages, if anything: the first of
/// the id, the id of the answered message, the time and the payload.
pub open spec fn row_fault(row: MessageRow) -> Option<Seq<char>> {
    match id_read(row.id@) {
        Err(e) => Some("invalid message id: "@ + e),
        Ok(_) => match row.reply_to {
            Some(s) => match id_read(s@) {
                Err(e) => Some("invalid reply_to id: "@ + e),
                Ok(_) => late_fault(row),
            },
            None => late_fault(row),
        },
    }
}

/// What is wrong with the time or the payload of a row, if anything.
pub open spec fn late_fault(row: MessageRow) -> Option<Seq<char>> {
    if point_at(row.created_at as int) is None {
        Some("invalid timestamp"@)
    } else {
        match json_read(row.raw_payload@) {
            Err(e) => Some("invalid raw_payload json: "@ + e),
            Ok(_) => None,
        }
    }
}

/// The message is that of the row.
pub open spec fn message_of(row: MessageRow, msg: ChatMessage) -> bool {
    &&& reads_as(row.id@, msg.id)
    &&& msg.trace_id == 0
    &&& msg.group_id@ == row.group_id@
    &&& msg.sender@ == row.sender_id@
    &&& msg.nickname@ == match row.sender_nick {
        Some(n) => n@,
        None => Seq::empty(),
    }
    &&& msg.content@ == row.content@
    &&& match (row.reply_to, msg.reply_to) {
        (Some(s), Some(id)) => reads_as(s@, id),
        (None, None) => true,
        _ => false,
    }
    &&& point_at(row.created_at as int) == Some(msg.timestamp)
    &&& msg.timestamp.valid()
    &&& json_read(row.raw_payload@) == Ok::<Json, Seq<char>>(msg.raw_payload)
}

/// The message that a row holds. Its trace starts anew.
pub fn row_to_message(row: &MessageRow) -> (res: Result<ChatMessage, NekoError>)
    ensures
        match res {
            Ok(msg) => row_fault(*row) is None && message_of(*row, msg),
            Err(e) => row_fault(*row) is Some && e.says(ErrorKind::Database, row_fault(*row)->0),
        },
{
    let id: MessageId = match parse_id(row.id.as_str()) {
        Ok(id) => id,
        Err(e) => {
            return Err(detailed(ErrorKind::Database, "invalid message id: ", e.as_str()));
        },
    };
    let reply_to: Option<MessageId> = match &row.reply_to {
        Some(s) => match parse_id(s.as_str()) {
            Ok(id) => Some(id),
            Err(e) => {
                return Err(detailed(ErrorKind::Database, "invalid reply_to id: ", e.as_str()));
            },
        },
        None => None,
    };
    let timestamp: Timestamp = match Timestamp::of_millis(row.created_at) {
        Some(t) => t,
        None => {
            return Err(NekoError::database("invalid timestamp".to_string()));
        },
    };
    let raw_payload: Json = match Json::parse(row.raw_payload.as_str()) {
        Ok(j) => j,
        Err(e) => {
            return Err(detailed(ErrorKind::Database, "invalid raw_payload json: ", e.as_str()));
        },
    };
    Ok(
        ChatMessage {
            id,
            trace_id: 0,
            group_id: row.group_id.clone(),
            sender: row.sender_id.clone(),
            nickname: match &row.sender_nick {
                Some(n) => n.clone(),
                None => String::new(),
            },
            content: row.content.clone(),
            timestamp,
            reply_to,
            raw_payload,
        },
    )
}

/// The messages of rows that came newest first, oldest first. One bad row
/// spoils them all; the error is that of the oldest bad row.
pub fn rows_to_context(rows: &Vec<MessageRow>) -> (res: Result<Vec<ChatMessage>, NekoError>)
    ensures
        match res {
            Ok(messages) => {
                &&& messages@.len() == rows@.len()
                &&& forall|i: int|
                    0 <= i < rows@.len() ==> message_of(
                        rows@[rows@.len() - 1 - i],
                        #[trigger] messages@[i],
                    )
                &&& forall|i: int| 0 <= i < rows@.len() ==> row_fault(#[trigger] rows@[i]) is None
            },
            Err(e) => exists|i: int|
                {
                    &&& 0 <= i < rows@.len()
                    &&& row_fault(#[trigger] rows@[i]) is Some
                    &&& e.says(ErrorKind::Database, row_fault(rows@[i])->0)
                    &&& forall|j: int|
                        i < j < rows@.len() ==> row_fault(#[trigger] rows@[j]) is None
                },
        },
{
    let mut messages: Vec<ChatMessage> = Vec::new();
    let mut left: usize = rows.len();
    while left > 0
        invariant
            0 <= left <= rows@.len(),
            messages@.len() == rows@.len() - left,
            forall|i: int|
                0 <= i < messages@.len() ==> message_of(
                    rows@[rows@.len() - 1 - i],
                    #[trigger] messages@[i],
                ),
            forall|j: int| left <= j < rows@.len() ==> row_fault(#[trigger] rows@[j]) is None,
        decreases left,
    {
        match row_to_message(&rows[left - 1]) {
            Ok(msg) => {
                messages.push(msg);
            },
            Err(e) => {
                assert(row_fault(rows@[left - 1]) is Some);
                return Err(e);
            },
        }
        left = left - 1;
    }
    Ok(messages)
}

/// The same 64 bits, taken as a number without a sign.
pub open spec fn wrapped(n: i64) -> int {
    if n < 0 {
        n + 0x1_0000_0000_0000_0000
    } else {
        n as int
    }
}

/// The state is that of the row.
pub open spec fn state_of_row(row: AffectiveRow, entry: (GroupId, UserId, AffectiveState)) -> bool {
    &&& entry.0@ == row.group_id@
    &&& entry.1@ == row.user_id@
    &&& entry.2.energy == row.energy
    &&& entry.2.favorability == row.favorability
    &&& entry.2.reply_count == wrapped(row.reply_count)
    &&& entry.2.last_updated == point_at(row.updated_at as int)
    &&& entry.2.last_updated matches Some(t) && t.valid()
}

/// The states of rows. One with a time that the calendar does not cover spoils
/// them all.
pub fn rows_to_states(rows: &Vec<AffectiveRow>) -> (res: Result<
    Vec<(GroupId, UserId, AffectiveState)>,
    NekoError,
>)
    ensures
        match res {
            Ok(states) => {
                &&& states@.len() == rows@.len()
                &&& forall|i: int|
                    0 <= i < rows@.len() ==> state_of_row(rows@[i], #[trigger] states@[i])
            },
            Err(e) => e.says(ErrorKind::Database, "invalid snapshot timestamp"@) && exists|i: int|
                0 <= i < rows@.len() && point_at((#[trigger] rows@[i]).updated_at as int) is None,
        },
{
    let mut states: Vec<(GroupId, UserId, AffectiveState)> = Vec::new();
    let mut i: usize = 0;
    while i < rows.len()
        invariant
            0 <= i <= rows@.len(),
            states@.len() == i,
            forall|k: int| 0 <= k < i ==> state_of_row(rows@[k], #[trigger] states@[k]),
        decreases rows@.len() - i,
    {
        let row: &AffectiveRow = &rows[i];
        match Timestamp::of_millis(row.updated_at) {
            Some(t) => {
                let reply_count: u64 = if row.reply_count < 0 {
                    (row.reply_count as i128 + 0x1_0000_0000_0000_0000) as u64
                } else {
                    row.reply_count as u64
                };
                states.push(
                    (
                        row.group_id.clone(),
                        row.user_id.clone(),
                        AffectiveState {
                            energy: row.energy,
                            favorability: row.favorability,
                            reply_count,
                            last_updated: Some(t),
                        },
                    ),
                );
            },
            None => {
                assert(point_at(rows@[i as int].updated_at as int) is None);
                return Err(NekoError::database("invalid snapshot timestamp".to_string()));
            },
        }
        i = i + 1;
    }
    Ok(states)
}

/// The row holds the state: at the whole milliseconds of its last change, or of
/// the current time where it never changed.
pub open spec fn row_holds_state(
    row: AffectiveRow,
    entry: (GroupId, UserId, AffectiveState),
) -> bool {
    &&& row.group_id@ == entry.0@
    &&& row.user_id@ == entry.1@
    &&& row.energy == entry.2.energy
    &&& row.favorability == entry.2.favorability
    &&& wrapped(row.reply_count) == entry.2.reply_count
    &&& match entry.2.last_updated {
        Some(t) => row.updated_at == t.whole_millis(),
        None => exists|now: Timestamp| #[trigger]
            now.valid() && row.updated_at == now.whole_millis(),
    }
}

/// The row of a state.
pub fn state_row(group_id: &GroupId, user_id: &UserId, state: &AffectiveState) -> (res: AffectiveRow)
    requires
        state.last_updated matches Some(t) ==> t.valid(),
    ensures
        row_holds_state(res, (*group_id, *user_id, *state)),
{
    let updated: Timestamp = match state.last_updated {
        Some(t) => t,
        None => Timestamp::now(),
    };
    let reply_count: i64 = if state.reply_count <= 0x7fff_ffff_ffff_ffff {
        state.reply_count as i64
    } else {
        (state.reply_count as i128 - 0x1_0000_0000_0000_0000) as i64
    };
    assert(updated.valid());
    AffectiveRow {
        group_id: group_id.clone(),
        user_id: user_id.clone(),
        energy: state.energy,
        favorability: state.favorability,
        reply_count,
        updated_at: updated.millis(),
    }
}

/// The point in time of a stored count of milliseconds.
pub fn timestamp_to_utc(millis: i64) -> (res: Result<Timestamp, NekoError>)
    ensures
        match res {
            Ok(t) => point_at(millis as int) == Some(t) && t.valid(),
            Err(e) => point_at(millis as int) is None && e.says(
                ErrorKind::Database,
                "invalid stored timestamp"@,
            ),
        },
{
    match Timestamp::of_millis(millis) {
        Some(t) => Ok(t),
        None => Err(NekoError::database("invalid stored timestamp".to_string())),
    }
}

/// What a stored payload is: the document that it reads as, and the text itself
/// where it reads as none.
pub open spec fn payload_of(text: Seq<char>, j: Json) -> bool {
    match json_read(text) {
        Ok(read) => j == read,
        Err(_) => j matches Json::Text(s) && s@ == text,
    }
}

/// The document of a stored payload.
pub fn stored_payload(text: &str) -> (res: Json)
    ensures
        payload_of(text@, res),
{
    match Json::parse(text) {
        Ok(j) => j,
        Err(_) => Json::Text(text.to_string()),
    }
}

/// A row of the table of messages, as an observer asks for it.
#[derive(Debug, Clone)]
pub struct StoredMessageRow {
    pub id: String,
    pub group_id: String,
    pub sender_id: String,
    pub sender_nick: Option<String>,
    pub content: String,
    pub reply_to: Option<String>,
    pub created_at: i64,
}

/// A row of the table of replies.
#[derive(Debug, Clone)]
pub struct StoredReplyRow {
    pub id: String,
    pub message_id: String,
    pub layer: String,
    pub content: String,
    pub sent_at: i64,
}

/// A row of the table of events.
#[derive(Debug, Clone)]
pub struct StoredEventRow {
    pub id: String,
    pub kind: String,
    pub payload: String,
    pub created_at: i64,
}

/// What a lookup found: nothing, where it failed.
pub open spec fn found<T>(lookup: Result<Vec<T>, NekoError>) -> Seq<T> {
    match lookup {
        Ok(items) => items@,
        Err(_) => Seq::empty(),
    }
}

/// What a lookup found: nothing, where it failed.
pub fn found_or_none<T>(lookup: Result<Vec<T>, NekoError>) -> (res: Vec<T>)
    ensures
        res@ == found(lookup),
{
    match lookup {
        Ok(items) => items,
        Err(_) => {
            let none: Vec<T> = Vec::new();
            assert(none@ =~= Seq::<T>::empty());
            none
        },
    }
}

/// The message of a row, as it is shown to an observer.
pub fn stored_message(row: StoredMessageRow) -> (res: Result<StoredMessage, NekoError>)
    ensures
        match res {
            Ok(m) => {
                &&& point_at(row.created_at as int) == Some(m.created_at)
                &&& m.created_at.valid()
                &&& m.id == row.id
                &&& m.group_id == row.group_id
                &&& m.sender_id == row.sender_id
                &&& m.sender_nick == row.sender_nick
                &&& m.content == row.content
                &&& m.reply_to == row.reply_to
            },
            Err(e) => point_at(row.created_at as int) is None && e.says(
                ErrorKind::Database,
                "invalid stored timestamp"@,
            ),
        },
{
    match timestamp_to_utc(row.created_at) {
        Ok(created_at) => Ok(
            StoredMessage {
                id: row.id,
                group_id: row.group_id,
                sender_id: row.sender_id,
                sender_nick: row.sender_nick,
                content: row.content,
                reply_to: row.reply_to,
                created_at,
            },
        ),
        Err(e) => Err(e),
    }
}

/// The reply of a row, as it is shown to an observer.
pub fn stored_reply(row: StoredReplyRow) -> (res: Result<StoredReply, NekoError>)
    ensures
        match res {
            Ok(r) => {
                &&& point_at(row.sent_at as int) == Some(r.sent_at)
                &&& r.sent_at.valid()
                &&& r.id == row.id
                &&& r.message_id == row.message_id
                &&& r.layer == row.layer
                &&& r.content == row.content
            },
            Err(e) => point_at(row.sent_at as int) is None && e.says(
                ErrorKind::Database,
                "invalid stored timestamp"@,
            ),
        },
{
    match timestamp_to_utc(row.sent_at) {
        Ok(sent_at) => Ok(
            StoredReply {
                id: row.id,
                message_id: row.message_id,
                layer: row.layer,
                content: row.content,
                sent_at,
            },
        ),
        Err(e) => Err(e),
    }
}

/// The event of a row, as it is shown to an observer.
pub fn stored_event(row: StoredEventRow) -> (res: Result<StoredEvent, NekoError>)
    ensures
        match res {
            Ok(v) => {
                &&& point_at(row.created_at as int) == Some(v.created_at)
                &&& v.created_at.valid()
                &&& v.id == row.id
                &&& v.kind == row.kind
                &&& payload_of(row.payload@, v.payload)
            },
            Err(e) => point_at(row.created_at as int) is None && e.says(
                ErrorKind::Database,
                "invalid stored timestamp"@,
            ),
        },
{
    let payload: Json = stored_payload(row.payload.as_str());
    match timestamp_to_utc(row.created_at) {
        Ok(created_at) => Ok(StoredEvent { id: row.id, kind: row.kind, payload, created_at }),
        Err(e) => Err(e),
    }
}

/// A message that was stored and read back is the message that it was, but for
/// the parts of its time below a millisecond and for its trace. So is a payload
/// that was read from what the platform sent, where its numbers are integers:
/// others may come back slightly off.
pub proof fn law_message_survives_storage(
    msg: ChatMessage,
    row: MessageRow,
    back: ChatMessage,
)
    requires
        msg.timestamp.valid(),
        holds(row, msg),
        message_of(row, back),
    ensures
        back.id == msg.id,
        back.group_id@ == msg.group_id@,
        back.sender@ == msg.sender@,
        back.nickname@ == msg.nickname@,
        back.content@ == msg.content@,
        back.reply_to == msg.reply_to,
        was_read(msg.raw_payload) && float_free(msg.raw_payload) ==> back.raw_payload
            == msg.raw_payload,
        back.timestamp.secs == msg.timestamp.secs,
        back.timestamp.nanos <= msg.timestamp.nanos < back.timestamp.nanos + 1_000_000,
{
}

/// The row of a message has no fault.
pub proof fn law_stored_row_is_sound(msg: ChatMessage, row: MessageRow)
    requires
        msg.timestamp.valid(),
        holds(row, msg),
        was_read(msg.raw_payload),
        float_free(msg.raw_payload),
    ensures
        row_fault(row) is None,
{
}

/// A state that was stored and read back is the state that it was, but for the
/// parts of its time below a millisecond.
pub proof fn law_state_survives_storage(
    entry: (GroupId, UserId, AffectiveState),
    row: AffectiveRow,
    back: (GroupId, UserId, AffectiveState),
)
    requires
        entry.2.last_updated matches Some(t) && t.valid(),
        row_holds_state(row, entry),
        state_of_row(row, back),
    ensures
        back.0@ == entry.0@,
        back.1@ == entry.1@,
        back.2.energy == entry.2.energy,
        back.2.favorability == entry.2.favorability,
        back.2.reply_count == entry.2.reply_count,
        back.2.last_updated->0.secs == entry.2.last_updated->0.secs,
        back.2.last_updated->0.nanos <= entry.2.last_updated->0.nanos
            < back.2.last_updated->0.nanos + 1_000_000,
{
}

/// A row gives a message exactly where its ids can be read, its time is one that the
/// calendar covers, and its payload is a document.
pub proof fn law_what_a_row_needs(row: MessageRow)
    ensures
        row_fault(row) is None <==> {
            &&& id_read(row.id@) is Ok
            &&& row.reply_to matches Some(s) ==> id_read(s@) is Ok
            &&& point_at(row.created_at as int) is Some
            &&& json_read(row.raw_payload@) is Ok
        },
        id_read(row.id@) matches Err(e) ==> row_fault(row) == Some("invalid message id: "@ + e),
{
}

/// A lookup that failed found nothing; one that did not found what it gave.
pub proof fn law_failed_lookup_finds_nothing<T>(lookup: Result<Vec<T>, NekoError>)
    ensures
        lookup is Err ==> found(lookup).len() == 0,
        lookup matches Ok(v) ==> found(lookup) == v@,
{
}

/// A stored payload that is a document is shown as that, and any other as the text
/// that it is.
pub proof fn law_payload_is_shown(text: Seq<char>, j: Json)
    requires
        payload_of(text, j),
    ensures
        json_read(text) matches Ok(d) ==> j == d,
        json_read(text) is Err ==> (j matches Json::Text(s) && s@ == text),
{
}

/// A stored count of milliseconds is the point in time that lies as far behind the
/// Unix epoch.
pub proof fn law_stored_time_is_a_point(millis: int)
    requires
        point_at(millis) is Some,
    ensures
        point_at(millis)->0.total() == millis * 1_000_000,
        point_at(millis)->0.nanos < 1_000_000_000,
{
}

} // verus!
