//! The link to the platform: what becomes of incoming messages, and how
//! replies are put together.

use vstd::prelude::*;
use vstd::string::*;
use crate::error::{detailed, ErrorKind, NekoError};
use crate::number::{i64_read, parse_i64};
use crate::types::ReplyOut;

verus! {

/// Where messages come in, and how many had to be dropped.
pub struct NapCatIngress {
    url: String,
    token: Option<String>,
    /// How long to wait before connecting again, in milliseconds.
    reconnect_interval_ms: u64,
    drop_count: u64,
}

/// How handing a message on went.
#[derive(Debug, Clone, Copy, PartialEq, Eq, Structural)]
pub enum Delivery {
    /// It was taken.
    Sent,
    /// There was no room for it.
    Full,
    /// Nobody takes messages any more.
    Closed,
}

/// What the listener does next.
#[derive(Debug, Clone, Copy, PartialEq, Eq, Structural)]
pub enum Listen {
    /// Go on.
    Continue,
    /// Go on, and say that so many messages were dropped in all.
    Warn(u64),
    /// Stop.
    Stop,
}

/// The count of drops is worth a word: the first few, then one in a hundred.
pub open spec fn worth_a_word(total: u64) -> bool {
    total < 5 || total % 100 == 0
}

/// What becomes of the connection.
#[derive(Debug, Clone, Copy, PartialEq, Eq, Structural)]
pub enum Connection {
    /// Connect.
    Connect,
    /// Wait, and look again.
    Wait,
    /// Stop.
    Stop,
}

impl NapCatIngress {
    /// The address.
    pub closed spec fn address(self) -> Seq<char> {
        self.url@
    }

    /// The access token.
    pub closed spec fn access(self) -> Option<String> {
        self.token
    }

    /// How long to wait before connecting again, in milliseconds.
    pub closed spec fn pause(self) -> int {
        self.reconnect_interval_ms as int
    }

    /// How many messages were dropped.
    pub closed spec fn drops(self) -> u64 {
        self.drop_count
    }

    /// A link that has dropped nothing.
    pub fn new(url: String, token: Option<String>, reconnect_interval_ms: u64) -> (res: Self)
        ensures
            res.address() == url@,
            res.access() == token,
            res.pause() == reconnect_interval_ms,
            res.drops() == 0,
    {
        NapCatIngress { url, token, reconnect_interval_ms, drop_count: 0 }
    }

    /// The address.
    pub fn url(&self) -> (res: &str)
        ensures
            res@ == self.address(),
    {
        self.url.as_str()
    }

    /// The access token.
    pub fn token(&self) -> (res: &Option<String>)
        ensures
            *res == self.access(),
    {
        &self.token
    }

    /// How long to wait before connecting again, in milliseconds.
    pub fn reconnect_interval_ms(&self) -> (res: u64)
        ensures
            res == self.pause(),
    {
        self.reconnect_interval_ms
    }

    /// How many messages were dropped for want of room.
    pub fn drop_count(&self) -> (res: u64)
        ensures
            res == self.drops(),
    {
        self.drop_count
    }

    /// Takes note of how handing a message on went. A message for which there
    /// was no room is dropped and counted; the listener stops only where nobody
    /// takes messages any more.
    pub fn push_or_drop(&mut self, delivery: Delivery) -> (res: Listen)
        ensures
            noted(*old(self), delivery, *final(self), res),
    {
        match delivery {
            Delivery::Sent => Listen::Continue,
            Delivery::Full => {
                self.drop_count = self.drop_count.wrapping_add(1);
                if self.drop_count < 5 || self.drop_count % 100 == 0 {
                    Listen::Warn(self.drop_count)
                } else {
                    Listen::Continue
                }
            },
            Delivery::Closed => Listen::Stop,
        }
    }
}

/// What to do when no connection is open: `ended` says how the last one ended,
/// if there was one, and whether it ended without an error.
pub fn next_connection(shutdown: bool, ended: Option<bool>) -> (res: Connection)
    ensures
        res == match ended {
            None => if shutdown {
                Connection::Stop
            } else {
                Connection::Connect
            },
            Some(well) => if well && shutdown {
                Connection::Stop
            } else {
                Connection::Wait
            },
        },
{
    match ended {
        None => if shutdown {
            Connection::Stop
        } else {
            Connection::Connect
        },
        Some(well) => if well && shutdown {
            Connection::Stop
        } else {
            Connection::Wait
        },
    }
}

/// A part of an outgoing message.
#[derive(Debug, Clone, PartialEq)]
pub enum Segment {
    /// A quote of the message with this id.
    Reply(i64),
    /// A text.
    Text(String),
}

/// A message to a group.
#[derive(Debug)]
pub struct GroupSend {
    pub group_id: i64,
    pub segments: Vec<Segment>,
}

/// The parts of a reply: a quote of what it answers, where that is known, and
/// the text.
pub open spec fn segments_of(reply: ReplyOut, segments: Seq<Segment>) -> bool {
    match reply.reply_to_platform {
        Some(id) => segments.len() == 2 && segments[0] == Segment::Reply(id) && (segments[1]
            matches Segment::Text(s) && s@ == reply.content@),
        None => segments.len() == 1 && (segments[0] matches Segment::Text(s) && s@
            == reply.content@),
    }
}

/// Puts a reply together. The group must be a number.
pub fn plan_send(reply: &ReplyOut) -> (res: Result<GroupSend, NekoError>)
    ensures
        match (res, i64_read(reply.group_id@)) {
            (Ok(send), Ok(n)) => send.group_id == n && segments_of(*reply, send.segments@),
            (Err(e), Err(cause)) => e.says(
                ErrorKind::Transport,
                "invalid group_id: "@ + cause.text(),
            ),
            _ => false,
        },
{
    let group_id: i64 = match parse_i64(reply.group_id.as_str()) {
        Ok(n) => n,
        Err(cause) => {
            return Err(
                detailed(ErrorKind::Transport, "invalid group_id: ", cause.message().as_str()),
            );
        },
    };
    let mut segments: Vec<Segment> = Vec::new();
    if let Some(id) = reply.reply_to_platform {
        segments.push(Segment::Reply(id));
    }
    segments.push(Segment::Text(reply.content.clone()));
    Ok(GroupSend { group_id, segments })
}

/// The link has taken note of how handing a message on went: a message for
/// which there was no room is counted, and only a closed channel stops it.
pub open spec fn noted(
    before: NapCatIngress,
    delivery: Delivery,
    after: NapCatIngress,
    res: Listen,
) -> bool {
    &&& after.address() == before.address()
    &&& after.access() == before.access()
    &&& after.pause() == before.pause()
    &&& match delivery {
        Delivery::Sent => res == Listen::Continue && after.drops() == before.drops(),
        Delivery::Full => {
            &&& after.drops() == before.drops().wrapping_add(1)
            &&& res == if worth_a_word(after.drops()) {
                Listen::Warn(after.drops())
            } else {
                Listen::Continue
            }
        },
        Delivery::Closed => res == Listen::Stop && after.drops() == before.drops(),
    }
}

/// Every message is handed on, counted as dropped, or the last one: the count
/// grows by one exactly where there was no room, and the listener stops exactly
/// where nobody takes messages any more.
pub proof fn law_drops_are_counted(
    before: NapCatIngress,
    delivery: Delivery,
    after: NapCatIngress,
    res: Listen,
)
    requires
        before.drops() < u64::MAX,
        noted(before, delivery, after, res),
    ensures
        after.drops() == before.drops() + (if delivery == Delivery::Full {
            1int
        } else {
            0
        }),
        res == Listen::Stop <==> delivery == Delivery::Closed,
{
}

/// How many of the first `n` messages found no room.
pub open spec fn full_count(deliveries: Seq<Delivery>, n: int) -> int
    decreases n,
{
    if n <= 0 {
        0
    } else {
        full_count(deliveries, n - 1) + if deliveries[n - 1] == Delivery::Full {
            1int
        } else {
            0
        }
    }
}

/// `run` are the states of a link from its start on, one more for each
/// delivery that it has taken note of.
pub open spec fn noted_run(run: Seq<NapCatIngress>, deliveries: Seq<Delivery>) -> bool {
    &&& run.len() == deliveries.len() + 1
    &&& run[0].drops() == 0
    &&& forall|i: int|
        0 <= i < deliveries.len() ==> exists|res: Listen| #[trigger]
            noted(run[i], #[trigger] deliveries[i], run[i + 1], res)
}

/// After any run of deliveries the count is the number of messages that found
/// no room, as long as the counter can hold it; messages that were taken, or
/// that came when nobody took messages any more, are not counted. It starts at
/// zero and never falls.
pub proof fn law_count_is_number_of_drops(
    run: Seq<NapCatIngress>,
    deliveries: Seq<Delivery>,
    n: int,
)
    requires
        noted_run(run, deliveries),
        full_count(deliveries, deliveries.len() as int) <= u64::MAX,
        0 <= n <= deliveries.len(),
    ensures
        run[n].drops() == full_count(deliveries, n),
        n > 0 ==> run[n - 1].drops() <= run[n].drops(),
    decreases n,
{
    if n > 0 {
        law_count_is_number_of_drops(run, deliveries, n - 1);
        lemma_full_count_grows(deliveries, n, deliveries.len() as int);
        let d = deliveries[n - 1];
        let res = choose|res: Listen| #[trigger] noted(run[n - 1], d, run[n - 1 + 1], res);
        assert(noted(run[n - 1], d, run[n], res));
    }
}

proof fn lemma_full_count_grows(deliveries: Seq<Delivery>, i: int, j: int)
    requires
        i <= j,
    ensures
        0 <= full_count(deliveries, i) <= full_count(deliveries, j),
    decreases if j > 0 { j } else { 0 },
{
    if i < j {
        if j > 0 {
            lemma_full_count_grows(deliveries, i, j - 1);
        }
    } else if j > 0 {
        lemma_full_count_grows(deliveries, i - 1, j - 1);
    }
}

/// A reply that quotes puts the quote first and its text behind it; one that does
/// not is its text alone.
pub proof fn law_quote_comes_first(reply: ReplyOut, segments: Seq<Segment>)
    requires
        segments_of(reply, segments),
    ensures
        reply.reply_to_platform matches Some(id) ==> segments.len() == 2 && segments[0]
            == Segment::Reply(id),
        reply.reply_to_platform is None ==> segments.len() == 1,
        segments.last() matches Segment::Text(s) && s@ == reply.content@,
{
}

/// The first four drops are spoken of, and then every hundredth.
pub proof fn law_drops_are_spoken_of(
    before: NapCatIngress,
    after: NapCatIngress,
    res: Listen,
)
    requires
        noted(before, Delivery::Full, after, res),
    ensures
        1 <= after.drops() <= 4 ==> res == Listen::Warn(after.drops()),
        after.drops() % 100 == 0 ==> res == Listen::Warn(after.drops()),
        after.drops() >= 5 && after.drops() % 100 != 0 ==> res == Listen::Continue,
        after.address() == before.address(),
{
}

} // verus!
