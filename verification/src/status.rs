//! The status page: which requests it answers, and with what.

use vstd::prelude::*;
use vstd::string::*;
use vstd::utf8::encode_utf8;
use crate::clock::{rfc3339_stamp, span_seconds, truncated, Timestamp};
use crate::number::{integer_text, unsigned_to_text};
use crate::text::{begins, ends, has_text, lemma_occurs_between};
use crate::types::RuntimeState;

verus! {

/// The whole seconds since the start, never negative.
pub open spec fn uptime(state: RuntimeState, now: Timestamp) -> int {
    let s = truncated(now.total() - state.started_at.total(), 1_000_000_000);
    if s < 0 {
        0
    } else {
        s
    }
}

/// The body of the status page.
pub open spec fn status_json(
    state: RuntimeState,
    ingress_drops: int,
    now: Timestamp,
    version: Seq<char>,
) -> Seq<char> {
    "{\"status\":\"ok\",\"version\":\""@ + version + "\",\"started_at\":\""@ + rfc3339_stamp(
        state.started_at.secs,
        state.started_at.nanos,
    ) + "\",\"uptime_sec\":"@ + integer_text(uptime(state, now)) + ",\"messages_received\":"@
        + integer_text(state.messages_received as int) + ",\"replies_sent\":"@ + integer_text(
        state.replies_sent as int,
    ) + ",\"ingress_drops\":"@ + integer_text(ingress_drops) + ",\"connected\":"@ + flag_shown(
        state.connected,
    ) + "}"@
}

/// How a truth value is written.
pub open spec fn flag_shown(flag: bool) -> Seq<char> {
    if flag {
        "true"@
    } else {
        "false"@
    }
}

/// The body of the status page.
pub fn status_body(state: &RuntimeState, ingress_drops: u64, now: Timestamp, version: &str) -> (res:
    String)
    requires
        state.started_at.valid(),
    ensures
        res@ == status_json(*state, ingress_drops as int, now, version@),
{
    let span: i128 = span_seconds(now.since(&state.started_at));
    let seconds: u128 = if span < 0 {
        0
    } else {
        span as u128
    };
    let mut body: String = "{\"status\":\"ok\",\"version\":\"".to_string();
    body.append(version);
    body.append("\",\"started_at\":\"");
    body.append(state.started_at.rfc3339().as_str());
    body.append("\",\"uptime_sec\":");
    body.append(unsigned_to_text(seconds).as_str());
    body.append(",\"messages_received\":");
    body.append(unsigned_to_text(state.messages_received as u128).as_str());
    body.append(",\"replies_sent\":");
    body.append(unsigned_to_text(state.replies_sent as u128).as_str());
    body.append(",\"ingress_drops\":");
    body.append(unsigned_to_text(ingress_drops as u128).as_str());
    body.append(",\"connected\":");
    body.append(
        if state.connected {
            "true"
        } else {
            "false"
        },
    );
    body.append("}");
    body
}

/// The request asks for the status page.
pub open spec fn asks_status(request: Seq<u8>) -> bool {
    let wanted = encode_utf8("GET /status "@);
    request.len() >= wanted.len() && request.take(wanted.len() as int) == wanted
}

/// Whether the request asks for the status page.
pub fn is_status_request(request: &Vec<u8>) -> (res: bool)
    ensures
        res == asks_status(request@),
{
    let wanted: &[u8] = "GET /status ".as_bytes();
    if request.len() < wanted.len() {
        return false;
    }
    let mut i: usize = 0;
    while i < wanted.len()
        invariant
            0 <= i <= wanted@.len() <= request@.len(),
            wanted@ == encode_utf8("GET /status "@),
            forall|k: int| 0 <= k < i ==> request@[k] == wanted@[k],
        decreases wanted@.len() - i,
    {
        if request[i] != wanted[i] {
            assert(request@.take(wanted@.len() as int)[i as int] != wanted@[i as int]);
            return false;
        }
        i = i + 1;
    }
    assert(request@.take(wanted@.len() as int) =~= wanted@);
    true
}

/// A response with a status and a body.
pub open spec fn response_text(status: Seq<char>, body: Seq<char>) -> Seq<char> {
    "HTTP/1.1 "@ + status
        + " OK\r\nContent-Type: application/json\r\nContent-Length: "@ + integer_text(
        encode_utf8(body).len() as usize as int,
    ) + "\r\nConnection: close\r\n\r\n"@ + body
}

/// A response with a status and a body.
fn response(status: &str, body: &str) -> (res: String)
    ensures
        res@ == response_text(status@, body@),
{
    let mut out: String = "HTTP/1.1 ".to_string();
    out.append(status);
    out.append(" OK\r\nContent-Type: application/json\r\nContent-Length: ");
    out.append(unsigned_to_text(body.len() as u128).as_str());
    out.append("\r\nConnection: close\r\n\r\n");
    out.append(body);
    out
}

/// The response to a request: the status page where it asks for it, nothing
/// where nothing was asked, and an error otherwise.
pub fn respond(
    request: &Vec<u8>,
    state: &RuntimeState,
    ingress_drops: u64,
    now: Timestamp,
    version: &str,
) -> (res: Option<String>)
    requires
        state.started_at.valid(),
    ensures
        match res {
            Some(text) => request@.len() > 0 && text@ == if asks_status(request@) {
                response_text("200"@, status_json(*state, ingress_drops as int, now, version@))
            } else {
                response_text("404"@, "{\"error\":\"not found\"}"@)
            },
            None => request@.len() == 0,
        },
{
    if request.len() == 0 {
        return None;
    }
    if is_status_request(request) {
        let body: String = status_body(state, ingress_drops, now, version);
        Some(response("200", body.as_str()))
    } else {
        Some(response("404", "{\"error\":\"not found\"}"))
    }
}

/// The page says how long the router has run: the whole seconds since it started,
/// and zero where the clock was set back.
pub proof fn law_uptime_is_whole_seconds(state: RuntimeState, now: Timestamp)
    ensures
        uptime(state, now) >= 0,
        now.total() >= state.started_at.total() ==> uptime(state, now) * 1_000_000_000
            <= now.total() - state.started_at.total() < (uptime(state, now) + 1) * 1_000_000_000,
        now.total() < state.started_at.total() ==> uptime(state, now) == 0,
{
}

/// The page names every figure behind its key: the version, and the messages and
/// replies so far with the time since the start before them.
pub proof fn law_page_shows_the_figures(
    state: RuntimeState,
    drops: int,
    now: Timestamp,
    version: Seq<char>,
)
    ensures
        begins(
            status_json(state, drops, now, version),
            "{\"status\":\"ok\",\"version\":\""@ + version,
        ),
        has_text(
            status_json(state, drops, now, version),
            "\",\"uptime_sec\":"@ + integer_text(uptime(state, now)) + ",\"messages_received\":"@
                + integer_text(state.messages_received as int) + ",\"replies_sent\":"@
                + integer_text(state.replies_sent as int) + ",\"ingress_drops\":"@,
        ),
{
    let whole = status_json(state, drops, now, version);
    let a = "{\"status\":\"ok\",\"version\":\""@ + version;
    let s = "\",\"started_at\":\""@ + rfc3339_stamp(state.started_at.secs, state.started_at.nanos);
    let b = "\",\"uptime_sec\":"@ + integer_text(uptime(state, now)) + ",\"messages_received\":"@
        + integer_text(state.messages_received as int) + ",\"replies_sent\":"@ + integer_text(
        state.replies_sent as int,
    ) + ",\"ingress_drops\":"@;
    let z = integer_text(drops) + ",\"connected\":"@ + flag_shown(state.connected) + "}"@;
    assert(whole =~= (a + s) + b + z);
    lemma_occurs_between(a + s, b, z);
    assert(whole.take(a.len() as int) =~= a);
}

/// The page ends with the drops and with whether there is a connection.
pub proof fn law_page_ends_with_the_connection(
    state: RuntimeState,
    drops: int,
    now: Timestamp,
    version: Seq<char>,
)
    ensures
        ends(
            status_json(state, drops, now, version),
            ",\"ingress_drops\":"@ + integer_text(drops) + ",\"connected\":"@ + flag_shown(
                state.connected,
            ) + "}"@,
        ),
        flag_shown(true) == "true"@,
        flag_shown(false) == "false"@,
{
    let whole = status_json(state, drops, now, version);
    let z = ",\"ingress_drops\":"@ + integer_text(drops) + ",\"connected\":"@ + flag_shown(
        state.connected,
    ) + "}"@;
    let lead = "{\"status\":\"ok\",\"version\":\""@ + version + "\",\"started_at\":\""@
        + rfc3339_stamp(state.started_at.secs, state.started_at.nanos) + "\",\"uptime_sec\":"@
        + integer_text(uptime(state, now)) + ",\"messages_received\":"@ + integer_text(
        state.messages_received as int,
    ) + ",\"replies_sent\":"@ + integer_text(state.replies_sent as int);
    assert(whole =~= lead + z);
    assert(whole.skip(lead.len() as int) =~= z);
}

/// A request asks for the page exactly where it begins with the words for it, with a
/// blank behind the path.
pub proof fn law_status_is_asked_by_path(request: Seq<u8>)
    ensures
        asks_status(request) <==> exists|rest: Seq<u8>|
            request == #[trigger] (encode_utf8("GET /status "@) + rest),
{
    let wanted = encode_utf8("GET /status "@);
    if asks_status(request) {
        assert(request =~= wanted + request.skip(wanted.len() as int));
    }
    if exists|rest: Seq<u8>| request == #[trigger] (wanted + rest) {
        let rest = choose|rest: Seq<u8>| request == #[trigger] (wanted + rest);
        assert(request.take(wanted.len() as int) =~= wanted);
    }
}

/// A response carries its status, says how many bytes its body has, and ends with the
/// body behind an empty line.
pub proof fn law_response_carries_its_body(status: Seq<char>, body: Seq<char>)
    ensures
        has_text(
            response_text(status, body),
            "HTTP/1.1 "@ + status + " OK\r\nContent-Type: application/json\r\nContent-Length: "@,
        ),
        ends(
            response_text(status, body),
            integer_text(encode_utf8(body).len() as usize as int)
                + "\r\nConnection: close\r\n\r\n"@ + body,
        ),
{
    let head = "HTTP/1.1 "@ + status
        + " OK\r\nContent-Type: application/json\r\nContent-Length: "@;
    let tail = integer_text(encode_utf8(body).len() as usize as int)
        + "\r\nConnection: close\r\n\r\n"@ + body;
    let whole = response_text(status, body);
    assert(whole =~= Seq::<char>::empty() + head + tail);
    lemma_occurs_between(Seq::empty(), head, tail);
    assert(whole.skip(head.len() as int) =~= tail);
}

} // verus!
