//! The read-only view of the history: how messages, replies and events are
//! listed.

use vstd::prelude::*;
use vstd::string::*;
use vstd::utf8::{encode_utf8, is_char_boundary};
use crate::clock::day_stamp;
use crate::json::json_shown;
use crate::number::{integer_text, law_u64_round_trip, parse_u64, signed_to_text, u64_read, unsigned_to_text};
use crate::store::{StoredEvent, StoredMessage, StoredReply};
use crate::text::{chars_of, ends, same, text_of, texts};

verus! {

/// How many items are listed where no number is asked for.
pub const DEFAULT_LIMIT: usize = 10;

/// Where `flag` first stands among the arguments, from position `from` on.
pub open spec fn flag_at(args: Seq<String>, flag: Seq<char>, from: int) -> Option<int>
    decreases args.len() - from,
{
    if from < 0 || from >= args.len() {
        None
    } else if args[from]@ == flag {
        Some(from)
    } else {
        flag_at(args, flag, from + 1)
    }
}

/// How many items the arguments ask for.
pub open spec fn asked_limit(args: Seq<String>) -> int {
    match flag_at(args, "--limit"@, 0) {
        Some(i) => if i + 1 < args.len() {
            match u64_read(args[i + 1]@) {
                Ok(n) => if n <= usize::MAX {
                    n
                } else {
                    DEFAULT_LIMIT as int
                },
                Err(_) => DEFAULT_LIMIT as int,
            }
        } else {
            DEFAULT_LIMIT as int
        },
        None => DEFAULT_LIMIT as int,
    }
}

/// Where `flag` first stands among the arguments.
fn find_flag(args: &Vec<String>, flag: &str) -> (res: Option<usize>)
    ensures
        match res {
            Some(i) => i < args@.len() && flag_at(args@, flag@, 0) == Some(i as int),
            None => flag_at(args@, flag@, 0) is None,
        },
{
    let mut i: usize = 0;
    while i < args.len()
        invariant
            0 <= i <= args@.len(),
            flag_at(args@, flag@, 0) == flag_at(args@, flag@, i as int),
        decreases args@.len() - i,
    {
        if same(args[i].as_str(), flag) {
            return Some(i);
        }
        i = i + 1;
    }
    None
}

/// Whether the arguments ask for the read-only view.
pub fn wants_observe(args: &Vec<String>) -> (res: bool)
    ensures
        res == (flag_at(args@, "--observe"@, 0) is Some),
{
    find_flag(args, "--observe").is_some()
}

/// How many items the arguments ask for.
pub fn observe_limit(args: &Vec<String>) -> (res: usize)
    ensures
        res == asked_limit(args@),
{
    match find_flag(args, "--limit") {
        Some(i) => {
            let len: usize = args.len();
            if len - i > 1 {
                match parse_u64(args[i + 1].as_str()) {
                    Ok(n) => if n <= usize::MAX as u64 {
                        n as usize
                    } else {
                        DEFAULT_LIMIT
                    },
                    Err(_) => DEFAULT_LIMIT,
                }
            } else {
                DEFAULT_LIMIT
            }
        },
        None => DEFAULT_LIMIT,
    }
}

/// `s` where it has at most `max` characters, and its first `max` with an
/// ellipsis otherwise.
pub open spec fn shortened(s: Seq<char>, max: int) -> Seq<char> {
    if s.len() <= max {
        s
    } else {
        s.take(max).push('…')
    }
}

/// Shortens a text to `max` characters and an ellipsis.
pub fn truncate(s: &str, max: usize) -> (res: String)
    ensures
        res@ == shortened(s@, max as int),
{
    let v: Vec<char> = chars_of(s);
    if v.len() <= max {
        return s.to_string();
    }
    let mut cut: String = text_of(&v, 0, max);
    assert(cut@ =~= s@.take(max as int));
    cut.push('…');
    cut
}

/// `short` is the beginning of `s`, up to eight bytes; `s` itself where it
/// cannot be cut there.
pub open spec fn is_short_id(s: Seq<char>, short: Seq<char>) -> bool {
    let bytes = encode_utf8(s);
    let n = if bytes.len() as usize <= 8 {
        bytes.len() as usize as int
    } else {
        8
    };
    if is_char_boundary(bytes, n) {
        encode_utf8(short) == bytes.take(n)
    } else {
        short == s
    }
}

/// The beginning of an id.
pub fn short_id(s: &str) -> (res: String)
    ensures
        is_short_id(s@, res@),
{
    let n: usize = if s.len() <= 8 {
        s.len()
    } else {
        8
    };
    if s.is_char_boundary(n) {
        let (head, _tail) = s.split_at(n);
        let res: String = head.to_string();
        assert(encode_utf8(res@) =~= encode_utf8(s@).take(n as int));
        res
    } else {
        s.to_string()
    }
}

/// `line` lists a message: when, where, who and what, and what it answers.
pub open spec fn lists_message(m: StoredMessage, line: Seq<char>) -> bool {
    let nick = match m.sender_nick {
        Some(n) => n@,
        None => m.sender_id@,
    };
    let head = day_stamp(m.created_at) + " ["@ + m.group_id@ + "] "@ + nick
        + ": "@ + shortened(m.content@, 80);
    match m.reply_to {
        Some(r) => exists|short: Seq<char>| #[trigger]
            is_short_id(r@, short) && line == head + (" (reply to "@ + short + ")"@),
        None => line == head,
    }
}

/// A message on a line of its own.
pub fn message_line(m: &StoredMessage) -> (res: String)
    requires
        m.created_at.valid(),
    ensures
        lists_message(*m, res@),
{
    let mut line: String = m.created_at.day().concat(" [").concat(
        m.group_id.as_str(),
    ).concat("] ");
    match &m.sender_nick {
        Some(n) => line.append(n.as_str()),
        None => line.append(m.sender_id.as_str()),
    }
    line.append(": ");
    line.append(truncate(m.content.as_str(), 80).as_str());
    if let Some(r) = &m.reply_to {
        let short: String = short_id(r.as_str());
        let note: String = " (reply to ".to_string().concat(short.as_str()).concat(")");
        assert(is_short_id(r@, short@));
        line.append(note.as_str());
    }
    line
}

/// `line` lists a reply: when, by which layer, to which message, and what.
pub open spec fn lists_reply(r: StoredReply, line: Seq<char>) -> bool {
    exists|short: Seq<char>| #[trigger]
        is_short_id(r.message_id@, short) && line == day_stamp(r.sent_at)
            + " ["@ + r.layer@ + "] <"@ + short + "> "@ + shortened(r.content@, 80)
}

/// A reply on a line of its own.
pub fn reply_line(r: &StoredReply) -> (res: String)
    requires
        r.sent_at.valid(),
    ensures
        lists_reply(*r, res@),
{
    let short: String = short_id(r.message_id.as_str());
    assert(is_short_id(r.message_id@, short@));
    r.sent_at.day().concat(" [").concat(r.layer.as_str()).concat("] <").concat(
        short.as_str(),
    ).concat("> ").concat(truncate(r.content.as_str(), 80).as_str())
}

/// An event on a line of its own: when, of what kind, and what.
pub fn event_line(e: &StoredEvent) -> (res: String)
    requires
        e.created_at.valid(),
    ensures
        res@ == listed_event(*e),
{
    e.created_at.day().concat(" [").concat(e.kind.as_str()).concat("] ").concat(
        truncate(e.payload.to_text().as_str(), 120).as_str(),
    )
}

/// How much the store holds.
#[derive(Debug)]
pub struct Overview {
    pub path: String,
    pub messages: i64,
    pub replies: i64,
    pub events: i64,
    pub snapshots: i64,
}

/// The first lines of the view.
pub open spec fn head_lines(o: Overview) -> Seq<Seq<char>> {
    seq![
        "== NekoRouter observability =="@,
        "database:  "@ + o.path@,
        "messages:  "@ + integer_text(o.messages as int),
        "replies:   "@ + integer_text(o.replies as int),
        "events:    "@ + integer_text(o.events as int),
        "snapshots: "@ + integer_text(o.snapshots as int),
        ""@,
    ]
}

/// The heading of a list.
pub open spec fn heading(limit: int, what: Seq<char>) -> Seq<char> {
    "-- last "@ + integer_text(limit) + what
}

/// `lines` list the messages.
pub open spec fn message_lines(messages: Seq<StoredMessage>, lines: Seq<Seq<char>>) -> bool {
    lines.len() == messages.len() && forall|i: int|
        0 <= i < lines.len() ==> lists_message(messages[i], #[trigger] lines[i])
}

/// `lines` list the replies.
pub open spec fn reply_lines(replies: Seq<StoredReply>, lines: Seq<Seq<char>>) -> bool {
    lines.len() == replies.len() && forall|i: int|
        0 <= i < lines.len() ==> lists_reply(replies[i], #[trigger] lines[i])
}

/// An event on a line of its own: when, of what kind, and what.
pub open spec fn listed_event(e: StoredEvent) -> Seq<char> {
    day_stamp(e.created_at) + " ["@ + e.kind@ + "] "@ + shortened(
        json_shown(e.payload),
        120,
    )
}

/// The lines of the lists: messages, replies and events, each under a heading.
pub open spec fn list_lines(
    limit: int,
    m: Seq<Seq<char>>,
    r: Seq<Seq<char>>,
    events: Seq<StoredEvent>,
) -> Seq<Seq<char>> {
    seq![heading(limit, " messages --"@)] + m + seq![""@, heading(limit, " replies --"@)] + r
        + seq![""@, heading(limit, " events --"@)] + events.map_values(
        |e: StoredEvent| listed_event(e),
    )
}

/// Everything that is listed carries a point in time that the calendar covers.
pub open spec fn all_dated(
    messages: Seq<StoredMessage>,
    replies: Seq<StoredReply>,
    events: Seq<StoredEvent>,
) -> bool {
    &&& forall|i: int| 0 <= i < messages.len() ==> (#[trigger] messages[i]).created_at.valid()
    &&& forall|i: int| 0 <= i < replies.len() ==> (#[trigger] replies[i]).sent_at.valid()
    &&& forall|i: int| 0 <= i < events.len() ==> (#[trigger] events[i]).created_at.valid()
}

/// `lines` are those of the view: an overview, and the lists unless none are
/// asked for.
pub open spec fn is_view(
    o: Overview,
    limit: int,
    messages: Seq<StoredMessage>,
    replies: Seq<StoredReply>,
    events: Seq<StoredEvent>,
    lines: Seq<Seq<char>>,
) -> bool {
    if limit == 0 {
        lines == head_lines(o)
    } else {
        exists|m: Seq<Seq<char>>, r: Seq<Seq<char>>|
            {
                &&& #[trigger] message_lines(messages, m)
                &&& #[trigger] reply_lines(replies, r)
                &&& lines == head_lines(o) + list_lines(limit, m, r, events)
            }
    }
}

/// The lines of the view.
pub fn view_lines(
    o: &Overview,
    limit: usize,
    messages: &Vec<StoredMessage>,
    replies: &Vec<StoredReply>,
    events: &Vec<StoredEvent>,
) -> (res: Vec<String>)
    requires
        all_dated(messages@, replies@, events@),
    ensures
        is_view(*o, limit as int, messages@, replies@, events@, texts(res@)),
{
    let mut out: Vec<String> = Vec::new();
    out.push("== NekoRouter observability ==".to_string());
    out.push("database:  ".to_string().concat(o.path.as_str()));
    out.push("messages:  ".to_string().concat(signed_to_text(o.messages).as_str()));
    out.push("replies:   ".to_string().concat(signed_to_text(o.replies).as_str()));
    out.push("events:    ".to_string().concat(signed_to_text(o.events).as_str()));
    out.push("snapshots: ".to_string().concat(signed_to_text(o.snapshots).as_str()));
    out.push("".to_string());
    let ghost head = head_lines(*o);
    assert(texts(out@) =~= head);
    if limit == 0 {
        return out;
    }
    let count: String = "-- last ".to_string().concat(unsigned_to_text(limit as u128).as_str());
    let ghost h1 = heading(limit as int, " messages --"@);
    let ghost mut m: Seq<Seq<char>> = Seq::empty();
    out.push(count.clone().concat(" messages --"));
    assert(texts(out@) =~= head + (seq![h1] + m));
    let mut i: usize = 0;
    while i < messages.len()
        invariant
            0 <= i <= messages@.len(),
            all_dated(messages@, replies@, events@),
            m.len() == i,
            forall|k: int| 0 <= k < i ==> lists_message(messages@[k], #[trigger] m[k]),
            texts(out@) == head + (seq![h1] + m),
        decreases messages@.len() - i,
    {
        let line: String = message_line(&messages[i]);
        let ghost before = texts(out@);
        let ghost more = m.push(line@);
        out.push(line);
        proof {
            assert(texts(out@) =~= before.push(line@));
            assert(head + (seq![h1] + more) =~= (head + (seq![h1] + m)).push(line@));
            m = more;
        }
        i = i + 1;
    }
    let ghost part1 = seq![h1] + m;
    let ghost h2 = heading(limit as int, " replies --"@);
    let ghost mut r: Seq<Seq<char>> = Seq::empty();
    let ghost before2 = texts(out@);
    out.push("".to_string());
    out.push(count.clone().concat(" replies --"));
    assert(texts(out@) =~= before2.push(""@).push(h2));
    assert(texts(out@) =~= head + (part1 + seq![""@, h2] + r));
    let mut i: usize = 0;
    while i < replies.len()
        invariant
            0 <= i <= replies@.len(),
            all_dated(messages@, replies@, events@),
            r.len() == i,
            forall|k: int| 0 <= k < i ==> lists_reply(replies@[k], #[trigger] r[k]),
            texts(out@) == head + (part1 + seq![""@, h2] + r),
        decreases replies@.len() - i,
    {
        let line: String = reply_line(&replies[i]);
        let ghost before = texts(out@);
        let ghost more = r.push(line@);
        out.push(line);
        proof {
            assert(texts(out@) =~= before.push(line@));
            assert(head + (part1 + seq![""@, h2] + more) =~= (head + (part1 + seq![""@, h2]
                + r)).push(line@));
            r = more;
        }
        i = i + 1;
    }
    let ghost part2 = part1 + seq![""@, h2] + r;
    let ghost h3 = heading(limit as int, " events --"@);
    let ghost listing = |e: StoredEvent| listed_event(e);
    let ghost before3 = texts(out@);
    out.push("".to_string());
    out.push(count.concat(" events --"));
    assert(texts(out@) =~= before3.push(""@).push(h3));
    assert(texts(out@) =~= head + (part2 + seq![""@, h3] + events@.take(0).map_values(listing)));
    let mut i: usize = 0;
    while i < events.len()
        invariant
            0 <= i <= events@.len(),
            all_dated(messages@, replies@, events@),
            listing == (|e: StoredEvent| listed_event(e)),
            texts(out@) == head + (part2 + seq![""@, h3] + events@.take(i as int).map_values(
                listing,
            )),
        decreases events@.len() - i,
    {
        let line: String = event_line(&events[i]);
        let ghost before = texts(out@);
        let ghost done = events@.take(i as int).map_values(listing);
        out.push(line);
        proof {
            assert(texts(out@) =~= before.push(line@));
            assert(events@.take(i + 1).map_values(listing) =~= done.push(line@));
            assert(head + (part2 + seq![""@, h3] + done.push(line@)) =~= (head + (part2 + seq![
                ""@,
                h3,
            ] + done)).push(line@));
        }
        i = i + 1;
    }
    proof {
        assert(events@.take(i as int) =~= events@);
        assert(message_lines(messages@, m));
        assert(reply_lines(replies@, r));
        assert(part2 + seq![""@, h3] + events@.map_values(listing) =~= list_lines(
            limit as int,
            m,
            r,
            events@,
        ));
        assert(texts(out@) == head + list_lines(limit as int, m, r, events@));
    }
    out
}

/// The number of items is what stands behind the first flag for it, where that is a
/// number; otherwise it is ten.
pub proof fn law_limit_is_as_asked(args: Seq<String>, at: int, n: u64)
    requires
        0 <= at <= args.len(),
        forall|k: int| 0 <= k < at ==> (#[trigger] args[k])@ != "--limit"@,
    ensures
        at == args.len() ==> asked_limit(args) == 10,
        at + 1 < args.len() && args[at]@ == "--limit"@ && args[at + 1]@ == integer_text(n as int)
            && n <= usize::MAX ==> asked_limit(args) == n,
        at + 1 < args.len() && args[at]@ == "--limit"@ && u64_read(args[at + 1]@) is Err
            ==> asked_limit(args) == 10,
        at + 1 == args.len() ==> asked_limit(args) == 10,
{
    lemma_flag_from(args, "--limit"@, 0, at);
    law_u64_round_trip(n);
    if at + 1 == args.len() && args[at]@ != "--limit"@ {
        lemma_flag_from(args, "--limit"@, 0, at + 1);
    }
}

proof fn lemma_flag_from(args: Seq<String>, flag: Seq<char>, from: int, at: int)
    requires
        0 <= from <= at <= args.len(),
        forall|k: int| 0 <= k < at ==> (#[trigger] args[k])@ != flag,
    ensures
        flag_at(args, flag, from) == flag_at(args, flag, at),
    decreases at - from,
{
    if from < at {
        lemma_flag_from(args, flag, from + 1, at);
    }
}

/// A flag is found wherever it stands, and only where it does.
pub proof fn law_flag_is_found(args: Seq<String>, flag: Seq<char>, from: int)
    requires
        0 <= from,
    ensures
        flag_at(args, flag, from) is Some <==> exists|k: int|
            from <= k < args.len() && (#[trigger] args[k])@ == flag,
    decreases args.len() - from,
{
    if from < args.len() && args[from]@ != flag {
        law_flag_is_found(args, flag, from + 1);
    }
}

/// A text that is short enough is shown whole; of a longer one the beginning is, with
/// an ellipsis behind it.
pub proof fn law_long_texts_are_cut(s: Seq<char>, max: int)
    requires
        max >= 0,
    ensures
        s.len() <= max ==> shortened(s, max) == s,
        s.len() > max ==> shortened(s, max).len() == max + 1 && shortened(s, max).last() == '…'
            && forall|i: int| 0 <= i < max ==> #[trigger] shortened(s, max)[i] == s[i],
{
}

/// The line of a message says when it came, in which group, from whom and what, and,
/// where it answers another, which.
pub proof fn law_line_of_a_message(m: StoredMessage, line: Seq<char>)
    requires
        lists_message(m, line),
    ensures
        (m.sender_nick is None && m.reply_to is None) ==> line == day_stamp(m.created_at) + " ["@
            + m.group_id@ + "] "@ + m.sender_id@ + ": "@ + shortened(m.content@, 80),
        (m.sender_nick matches Some(n) && m.reply_to is None) ==> line == day_stamp(m.created_at)
            + " ["@ + m.group_id@ + "] "@ + m.sender_nick->0@ + ": "@ + shortened(m.content@, 80),
        m.reply_to matches Some(r) ==> exists|short: Seq<char>| #[trigger]
            is_short_id(r@, short) && ends(line, ": "@ + shortened(m.content@, 80) + (" (reply to "@
                + short + ")"@)),
{
    if let Some(r) = m.reply_to {
        let nick = match m.sender_nick {
            Some(n) => n@,
            None => m.sender_id@,
        };
        let lead = day_stamp(m.created_at) + " ["@ + m.group_id@ + "] "@ + nick;
        let head = lead + ": "@ + shortened(m.content@, 80);
        let short = choose|short: Seq<char>| #[trigger]
            is_short_id(r@, short) && line == head + (" (reply to "@ + short + ")"@);
        let tail = ": "@ + shortened(m.content@, 80) + (" (reply to "@ + short + ")"@);
        assert(line =~= lead + tail);
        assert(line.skip(line.len() - tail.len()) =~= tail);
    }
}

/// The line of a reply says when it was sent, by which layer, to which message and
/// what; that of an event when it was, of what kind and what.
pub proof fn law_lines_of_replies_and_events(r: StoredReply, line: Seq<char>, e: StoredEvent)
    requires
        lists_reply(r, line),
    ensures
        exists|short: Seq<char>| #[trigger]
            is_short_id(r.message_id@, short) && line == day_stamp(r.sent_at) + " ["@ + r.layer@
                + "] <"@ + short + "> "@ + shortened(r.content@, 80),
        json_shown(e.payload).len() <= 120 ==> listed_event(e) == day_stamp(e.created_at) + " ["@
            + e.kind@ + "] "@ + json_shown(e.payload),
{
}

/// The view lists everything that it is given, in order: after seven lines of
/// overview the messages under their heading, then the replies, then the events, an
/// empty line before each heading but the first. Where nothing is asked for, there is
/// the overview alone.
pub proof fn law_view_lists_everything(
    o: Overview,
    limit: int,
    messages: Seq<StoredMessage>,
    replies: Seq<StoredReply>,
    events: Seq<StoredEvent>,
    lines: Seq<Seq<char>>,
)
    requires
        is_view(o, limit, messages, replies, events, lines),
    ensures
        lines.len() >= 7,
        limit == 0 ==> lines.len() == 7,
        lines[1] == "database:  "@ + o.path@,
        lines[2] == "messages:  "@ + integer_text(o.messages as int),
        lines[3] == "replies:   "@ + integer_text(o.replies as int),
        lines[4] == "events:    "@ + integer_text(o.events as int),
        lines[5] == "snapshots: "@ + integer_text(o.snapshots as int),
        limit != 0 ==> {
            let m = messages.len() as int;
            let r = replies.len() as int;
            &&& lines.len() == 12 + m + r + events.len()
            &&& lines[7] == "-- last "@ + integer_text(limit) + " messages --"@
            &&& forall|i: int|
                0 <= i < m ==> lists_message(#[trigger] messages[i], lines[8 + i])
            &&& lines[9 + m] == "-- last "@ + integer_text(limit) + " replies --"@
            &&& forall|i: int|
                0 <= i < r ==> lists_reply(#[trigger] replies[i], lines[10 + m + i])
            &&& lines[11 + m + r] == "-- last "@ + integer_text(limit) + " events --"@
            &&& forall|i: int|
                0 <= i < events.len() ==> lines[12 + m + r + i] == listed_event(
                    #[trigger] events[i],
                )
        },
{
    if limit != 0 {
        let (m, r) = choose|m: Seq<Seq<char>>, r: Seq<Seq<char>>|
            {
                &&& #[trigger] message_lines(messages, m)
                &&& #[trigger] reply_lines(replies, r)
                &&& lines == head_lines(o) + list_lines(limit, m, r, events)
            };
        let l = list_lines(limit, m, r, events);
        assert(head_lines(o).len() == 7);
        assert(forall|i: int| 0 <= i < l.len() ==> lines[7 + i] == #[trigger] l[i]);
        assert forall|i: int| 0 <= i < messages.len() implies lists_message(
            #[trigger] messages[i],
            lines[8 + i],
        ) by {
            assert(l[1 + i] == m[i]);
        }
        let n = messages.len() as int;
        assert(l[2 + n] == heading(limit, " replies --"@));
        assert forall|i: int| 0 <= i < replies.len() implies lists_reply(
            #[trigger] replies[i],
            lines[10 + n + i],
        ) by {
            assert(l[3 + n + i] == r[i]);
        }
        let k = replies.len() as int;
        assert(l[4 + n + k] == heading(limit, " events --"@));
        assert forall|i: int| 0 <= i < events.len() implies lines[12 + n + k + i] == listed_event(
            #[trigger] events[i],
        ) by {
            assert(l[5 + n + k + i] == listed_event(events[i]));
        }
        assert(l[0] == heading(limit, " messages --"@));
    }
}

/// An id is shown by its first eight bytes, or whole where it has no more.
pub proof fn law_ids_are_shown_short(s: Seq<char>, short: Seq<char>)
    requires
        is_short_id(s, short),
        encode_utf8(s).len() <= usize::MAX,
    ensures
        encode_utf8(s).len() > 8 && is_char_boundary(encode_utf8(s), 8) ==> encode_utf8(short)
            == encode_utf8(s).take(8),
        encode_utf8(s).len() > 8 && !is_char_boundary(encode_utf8(s), 8) ==> short == s,
        encode_utf8(s).len() <= 8 && is_char_boundary(encode_utf8(s), encode_utf8(s).len() as int)
            ==> encode_utf8(short) == encode_utf8(s),
{
    let b = encode_utf8(s);
    if b.len() <= 8 {
        assert(b.take(b.len() as int) =~= b);
    }
}

} // verus!
