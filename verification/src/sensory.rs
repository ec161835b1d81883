//! The first layer: drops repeated messages, keeps the state of every user,
//! buffers messages for the history store and notices heated conversations.

use vstd::prelude::*;
use vstd::string::*;
use std::collections::HashSet;
use crate::clock::{span_millis, span_seconds, truncated, Timestamp};
use crate::ident::{GroupId, MessageId, UserId};
use crate::maps::{
    state_entries, states_get, states_list, states_new, states_put, time_entries, times_get,
    times_new, times_put, window_entries, windows_new, windows_put, windows_take, StateMap,
    TimeMap, WindowMap,
};
use crate::single::{
    answers_only, gives, law_sum_is_step_by_step, lemma_sum_empty, lemma_sum_push, sum_gives, total,
    Calc, Single, ONE, ZERO,
};
use crate::types::{
    blank_state, copy_messages, decayed, replied, AffectiveState, ChatMessage, Event, ReplyOut, TopicBurst,
    TopicBurstScore,
};

verus! {

broadcast use vstd::std_specs::hash::group_hash_axioms;

/// The settings of the layer.
#[derive(Debug, Clone, Copy, PartialEq, Eq, Structural)]
pub struct SensoryConfig {
    pub batch_size: usize,
    pub flush_interval_ms: u64,
    pub energy_decay_per_min: Single,
    pub favor_decay_per_min: Single,
    pub max_recent_messages: usize,
    /// Whether heated conversations are noticed at all.
    pub burst_detection_enabled: bool,
    /// How far back a conversation is looked at, in seconds.
    pub burst_window_sec: u64,
    /// The least number of messages per minute.
    pub burst_threshold_mpm: Single,
    /// The least number of distinct senders.
    pub burst_threshold_participants: usize,
    /// The greatest average gap between messages, in seconds.
    pub burst_threshold_gap_sec: Single,
    /// How long a group stays quiet after a burst, in seconds.
    pub burst_cooldown_sec: u64,
}

/// The greatest number of whole seconds in a span.
pub const MAX_SPAN_SECS: u64 = 9_223_372_036_854_775;

/// The most messages that are looked at.
pub const MAX_WINDOW_SIZE: usize = 256;

/// The bits of 0.02, by which a message raises the energy of its sender.
pub const TOUCH_ENERGY: u32 = 0x3ca3_d70a;

/// The bits of 0.05, the quality of every reply.
pub const REPLY_QUALITY: u32 = 0x3d4c_cccd;

/// The bits of 60.
pub const SIXTY: u32 = 0x4270_0000;

/// The bits of 1000.
pub const THOUSAND: u32 = 0x447a_0000;

impl SensoryConfig {
    /// The cooldown, as a signed number of seconds.
    pub open spec fn cooldown_secs(self) -> int {
        if self.burst_cooldown_sec <= i64::MAX {
            self.burst_cooldown_sec as int
        } else {
            self.burst_cooldown_sec - 0x1_0000_0000_0000_0000
        }
    }

    /// The cooldown can be held as a span, where it is ever looked at.
    pub open spec fn valid(self) -> bool {
        self.burst_detection_enabled ==> -(MAX_SPAN_SECS as int) <= self.cooldown_secs()
            <= MAX_SPAN_SECS
    }

    /// Whether the cooldown can be held as a span, where it is ever looked at.
    pub fn is_valid(&self) -> (res: bool)
        ensures
            res == self.valid(),
    {
        !self.burst_detection_enabled || (self.burst_cooldown_sec <= MAX_SPAN_SECS)
            || self.burst_cooldown_sec >= 0xffff_ffff_ffff_ffff - (MAX_SPAN_SECS - 1)
    }

    /// The cooldown in nanoseconds.
    fn cooldown_nanos(&self) -> (res: i128)
        ensures
            res == self.cooldown_secs() * 1_000_000_000,
    {
        if self.burst_cooldown_sec <= 0x7fff_ffff_ffff_ffff {
            self.burst_cooldown_sec as i128 * 1_000_000_000
        } else {
            (self.burst_cooldown_sec as i128 - 0x1_0000_0000_0000_0000) * 1_000_000_000
        }
    }

    /// How far back a conversation is looked at, in nanoseconds.
    pub open spec fn window_span(self) -> int {
        if self.burst_window_sec <= MAX_SPAN_SECS {
            self.burst_window_sec * 1_000_000_000
        } else {
            0
        }
    }
}

impl Default for SensoryConfig {
    fn default() -> (res: Self)
        ensures
            res == (SensoryConfig {
                batch_size: 50,
                flush_interval_ms: 5000,
                energy_decay_per_min: Single { bits: 0x3d4c_cccd },
                favor_decay_per_min: Single { bits: 0x3ca3_d70a },
                max_recent_messages: 1024,
                burst_detection_enabled: true,
                burst_window_sec: 60,
                burst_threshold_mpm: Single { bits: 0x40c0_0000 },
                burst_threshold_participants: 3,
                burst_threshold_gap_sec: Single { bits: 0x41f0_0000 },
                burst_cooldown_sec: 120,
            }),
            res.valid(),
    {
        SensoryConfig {
            batch_size: 50,
            flush_interval_ms: 5000,
            energy_decay_per_min: Single { bits: 0x3d4c_cccd },
            favor_decay_per_min: Single { bits: 0x3ca3_d70a },
            max_recent_messages: 1024,
            burst_detection_enabled: true,
            burst_window_sec: 60,
            burst_threshold_mpm: Single { bits: 0x40c0_0000 },
            burst_threshold_participants: 3,
            burst_threshold_gap_sec: Single { bits: 0x41f0_0000 },
            burst_cooldown_sec: 120,
        }
    }
}

/// The messages of `s` younger than `span` at `now`, in order.
pub open spec fn young(s: Seq<ChatMessage>, now: Timestamp, span: int) -> Seq<ChatMessage> {
    s.filter(|m: ChatMessage| now.total() - m.timestamp.total() < span)
}

/// The last [`MAX_WINDOW_SIZE`] of `s`.
pub open spec fn latest(s: Seq<ChatMessage>) -> Seq<ChatMessage> {
    if s.len() > MAX_WINDOW_SIZE {
        s.skip(s.len() - MAX_WINDOW_SIZE)
    } else {
        s
    }
}

/// What a map holds under `k`, or an empty list.
pub open spec fn window_of(m: Map<Seq<char>, Seq<ChatMessage>>, k: Seq<char>) -> Seq<ChatMessage> {
    if m.contains_key(k) {
        m[k]
    } else {
        Seq::empty()
    }
}

/// What a map holds under `k`, or the state of a user not seen before.
pub open spec fn state_of(
    m: Map<(Seq<char>, Seq<char>), AffectiveState>,
    k: (Seq<char>, Seq<char>),
) -> AffectiveState {
    if m.contains_key(k) {
        m[k]
    } else {
        blank_state()
    }
}

/// The senders of messages.
pub open spec fn senders(w: Seq<ChatMessage>) -> Seq<Seq<char>> {
    w.map_values(|m: ChatMessage| m.sender@)
}

/// The number of distinct senders.
pub open spec fn participants(w: Seq<ChatMessage>) -> nat {
    senders(w).to_set().len()
}

/// Enough messages by enough senders.
pub open spec fn crowded(c: SensoryConfig, w: Seq<ChatMessage>) -> bool {
    w.len() >= 2 && w.len() >= c.burst_threshold_participants && participants(w)
        >= c.burst_threshold_participants
}

/// The milliseconds from one message to the next, never negative.
pub open spec fn gap_millis(a: ChatMessage, b: ChatMessage) -> int {
    let ms = truncated(b.timestamp.total() - a.timestamp.total(), 1_000_000);
    if ms < 0 {
        0
    } else {
        ms
    }
}

/// The whole seconds from the first message to the last, one at the least.
pub open spec fn elapsed_seconds(w: Seq<ChatMessage>) -> int {
    let s = truncated(w.last().timestamp.total() - w[0].timestamp.total(), 1_000_000_000);
    if s < 1 {
        1
    } else {
        s
    }
}

/// `r` is what `f` may give for the gap between two messages, in seconds.
pub open spec fn gap_gives<F: Fn(Calc) -> Single>(
    f: F,
    a: ChatMessage,
    b: ChatMessage,
    r: Single,
) -> bool {
    exists|ms: Single|
        #![trigger gives(f, Calc::Div(ms, Single { bits: THOUSAND }), r)]
        gives(f, Calc::OfInt(gap_millis(a, b) as i64), ms) && gives(
            f,
            Calc::Div(ms, Single { bits: THOUSAND }),
            r,
        )
}

/// `r` is what `f` may give for the average gap, in seconds.
pub open spec fn average_gives<F: Fn(Calc) -> Single>(
    f: F,
    w: Seq<ChatMessage>,
    r: Single,
) -> bool {
    exists|gaps: Seq<Single>, sum: Single, count: Single|
        #![trigger sum_gives(f, gaps, sum), gives(f, Calc::Div(sum, count), r)]
        {
            &&& gaps.len() == w.len() - 1
            &&& forall|i: int|
                0 <= i < gaps.len() ==> gap_gives(f, w[i], w[i + 1], #[trigger] gaps[i])
            &&& sum_gives(f, gaps, sum)
            &&& gives(f, Calc::OfInt(gaps.len() as i64), count)
            &&& gives(f, Calc::Div(sum, count), r)
        }
}

/// `r` is what `f` may give for the messages per minute.
pub open spec fn rate_gives<F: Fn(Calc) -> Single>(f: F, w: Seq<ChatMessage>, r: Single) -> bool {
    exists|secs: Single, minutes: Single, count: Single|
        #![trigger gives(f, Calc::Div(secs, Single { bits: SIXTY }), minutes), gives(f, Calc::Div(count, minutes), r)]
        {
            &&& gives(f, Calc::OfInt(elapsed_seconds(w) as i64), secs)
            &&& gives(f, Calc::Div(secs, Single { bits: SIXTY }), minutes)
            &&& gives(f, Calc::OfInt(w.len() as i64), count)
            &&& gives(f, Calc::Div(count, minutes), r)
        }
}

/// The rate and the average gap are those of a heated conversation.
pub open spec fn heated(c: SensoryConfig, rate: Single, gap: Single) -> bool {
    !rate.below(c.burst_threshold_mpm) && !c.burst_threshold_gap_sec.below(gap)
}

/// The cooldown since the last burst of the group `k` is over.
pub open spec fn cooled(
    c: SensoryConfig,
    last: Map<Seq<char>, Timestamp>,
    k: Seq<char>,
    now: Timestamp,
) -> bool {
    last.contains_key(k) ==> now.total() - last[k].total() > c.cooldown_secs() * 1_000_000_000
}

/// `after` is the state `before` of a user, touched by a message at `now`.
pub open spec fn touched<F: Fn(Calc) -> Single>(
    f: F,
    c: SensoryConfig,
    before: AffectiveState,
    now: Timestamp,
    after: AffectiveState,
) -> bool {
    exists|mid: AffectiveState, e: Single|
        #![trigger gives(f, Calc::Add(mid.energy, Single { bits: TOUCH_ENERGY }), e)]
        {
            &&& match before.last_updated {
                None => mid == before,
                Some(last) => exists|secs: Single, minutes: Single|
                    #![trigger gives(f, Calc::Div(secs, Single { bits: SIXTY }), minutes)]
                    {
                        &&& gives(
                            f,
                            Calc::OfInt(truncated(now.total() - last.total(), 1_000_000_000) as i64),
                            secs,
                        )
                        &&& gives(f, Calc::Div(secs, Single { bits: SIXTY }), minutes)
                        &&& decayed(
                            f,
                            before,
                            minutes,
                            c.energy_decay_per_min,
                            c.favor_decay_per_min,
                            mid,
                        )
                    },
            }
            &&& gives(f, Calc::Add(mid.energy, Single { bits: TOUCH_ENERGY }), e)
            &&& after == (AffectiveState {
                energy: e.lesser(Single { bits: ONE }),
                last_updated: Some(now),
                ..mid
            })
        }
}

/// The number of distinct senders in `w`.
fn count_participants(w: &Vec<ChatMessage>) -> (res: usize)
    ensures
        res == participants(w@),
{
    let mut seen: Vec<String> = Vec::new();
    let ghost mut names: Seq<Seq<char>> = Seq::empty();
    let mut i: usize = 0;
    proof {
        assert(senders(w@.take(0)).to_set() =~= names.to_set());
    }
    while i < w.len()
        invariant
            0 <= i <= w@.len(),
            names == crate::text::texts(seen@),
            names.no_duplicates(),
            names.to_set() =~= senders(w@.take(i as int)).to_set(),
            seen@.len() <= i,
        decreases w@.len() - i,
    {
        let mut found: bool = false;
        let mut k: usize = 0;
        while k < seen.len()
            invariant
                0 <= k <= seen@.len(),
                i < w@.len(),
                names == crate::text::texts(seen@),
                found <==> exists|j: int| 0 <= j < k && #[trigger] names[j] == w@[i as int].sender@,
            decreases seen@.len() - k,
        {
            if seen[k] == w[i].sender {
                found = true;
                assert(names[k as int] == w@[i as int].sender@);
            }
            k = k + 1;
        }
        let ghost before = senders(w@.take(i as int));
        let ghost after = senders(w@.take(i + 1));
        proof {
            assert(after =~= before.push(w@[i as int].sender@));
            assert forall|x: Seq<char>| after.contains(x) <==> (before.contains(x) || x
                == w@[i as int].sender@) by {
                if before.contains(x) {
                    let j = choose|j: int| 0 <= j < before.len() && before[j] == x;
                    assert(after[j] == x);
                }
                if x == w@[i as int].sender@ {
                    assert(after[i as int] == x);
                }
            }
            assert(after.to_set() =~= before.to_set().insert(w@[i as int].sender@));
        }
        if !found {
            let ghost old_names = names;
            seen.push(w[i].sender.clone());
            proof {
                names = names.push(w@[i as int].sender@);
                assert(names =~= crate::text::texts(seen@));
                assert(!old_names.contains(w@[i as int].sender@));
                assert forall|x: Seq<char>| names.contains(x) <==> (old_names.contains(x) || x
                    == w@[i as int].sender@) by {
                    if old_names.contains(x) {
                        let j = choose|j: int| 0 <= j < old_names.len() && old_names[j] == x;
                        assert(names[j] == x);
                    }
                    if x == w@[i as int].sender@ {
                        assert(names[old_names.len() as int] == x);
                    }
                }
                assert(names.to_set() =~= old_names.to_set().insert(w@[i as int].sender@));
            }
        } else {
            proof {
                assert(names.contains(w@[i as int].sender@));
                assert(names.to_set().contains(w@[i as int].sender@));
            }
        }
        i = i + 1;
    }
    proof {
        assert(w@.take(i as int) =~= w@);
        names.unique_seq_to_set();
    }
    seen.len()
}

/// The messages of `v` younger than `span` at `now`, the last
/// [`MAX_WINDOW_SIZE`] of them.
fn trim_window(v: &Vec<ChatMessage>, now: &Timestamp, span: i128) -> (res: Vec<ChatMessage>)
    ensures
        res@ == latest(young(v@, *now, span as int)),
{
    let ghost keep = |m: ChatMessage| now.total() - m.timestamp.total() < span as int;
    let mut kept: Vec<ChatMessage> = Vec::new();
    let mut i: usize = 0;
    proof {
        reveal(Seq::filter);
    }
    while i < v.len()
        invariant
            0 <= i <= v@.len(),
            keep == (|m: ChatMessage| now.total() - m.timestamp.total() < span as int),
            kept@ == v@.take(i as int).filter(keep),
        decreases v@.len() - i,
    {
        proof {
            reveal(Seq::filter);
            assert(v@.take(i + 1).drop_last() =~= v@.take(i as int));
            assert(v@.take(i + 1).last() == v@[i as int]);
        }
        if now.since(&v[i].timestamp) < span {
            kept.push(v[i].clone());
        }
        i = i + 1;
    }
    proof {
        assert(v@.take(v@.len() as int) =~= v@);
    }
    if kept.len() > MAX_WINDOW_SIZE {
        let from: usize = kept.len() - MAX_WINDOW_SIZE;
        let mut last: Vec<ChatMessage> = Vec::new();
        let mut k: usize = from;
        while k < kept.len()
            invariant
                from <= k <= kept@.len(),
                last@ == kept@.subrange(from as int, k as int),
            decreases kept@.len() - k,
        {
            last.push(kept[k].clone());
            proof {
                assert(kept@.subrange(from as int, k + 1) =~= kept@.subrange(
                    from as int,
                    k as int,
                ).push(kept@[k as int]));
            }
            k = k + 1;
        }
        assert(last@ =~= kept@.skip(from as int));
        last
    } else {
        kept
    }
}

/// Every message carries a point in time that the calendar covers.
pub open spec fn dated(w: Seq<ChatMessage>) -> bool {
    forall|i: int| 0 <= i < w.len() ==> (#[trigger] w[i]).timestamp.valid()
}

/// The average gap between the messages of `w`, in seconds.
fn average_gap<F: Fn(Calc) -> Single>(w: &Vec<ChatMessage>, f: &F) -> (res: Single)
    requires
        total(*f),
        dated(w@),
        2 <= w@.len() <= MAX_WINDOW_SIZE,
    ensures
        average_gives(*f, w@, res),
{
    let mut sum: Single = Single { bits: ZERO };
    let ghost mut gaps: Seq<Single> = Seq::empty();
    let mut i: usize = 0;
    proof {
        lemma_sum_empty(*f);
    }
    while i + 1 < w.len()
        invariant
            0 <= i <= w@.len() - 1,
            2 <= w@.len() <= MAX_WINDOW_SIZE,
            total(*f),
            dated(w@),
            gaps.len() == i,
            forall|k: int|
                0 <= k < gaps.len() ==> gap_gives(*f, w@[k], w@[k + 1], #[trigger] gaps[k]),
            sum_gives(*f, gaps, sum),
        decreases w@.len() - i,
    {
        let raw: i128 = span_millis(w[i + 1].timestamp.since(&w[i].timestamp));
        let millis: i64 = if raw < 0 {
            0
        } else {
            raw as i64
        };
        assert(millis as int == gap_millis(w@[i as int], w@[i + 1]));
        let ms: Single = f(Calc::OfInt(millis));
        assert(gives(*f, Calc::OfInt(millis), ms));
        let gap: Single = f(Calc::Div(ms, Single { bits: THOUSAND }));
        assert(gives(*f, Calc::Div(ms, Single { bits: THOUSAND }), gap));
        assert(gap_gives(*f, w@[i as int], w@[i + 1], gap));
        let next: Single = f(Calc::Add(sum, gap));
        proof {
            let longer = gaps.push(gap);
            assert(gives(*f, Calc::Add(sum, gap), next));
            lemma_sum_push(*f, gaps, sum, gap, next);
            gaps = longer;
        }
        sum = next;
        i = i + 1;
    }
    let count: Single = f(Calc::OfInt(i as i64));
    assert(gives(*f, Calc::OfInt(gaps.len() as i64), count));
    let res: Single = f(Calc::Div(sum, count));
    assert(gives(*f, Calc::Div(sum, count), res));
    res
}

/// The messages of `w` per minute.
fn message_rate<F: Fn(Calc) -> Single>(w: &Vec<ChatMessage>, f: &F) -> (res: Single)
    requires
        total(*f),
        dated(w@),
        1 <= w@.len() <= MAX_WINDOW_SIZE,
    ensures
        rate_gives(*f, w@, res),
{
    let raw: i128 = span_seconds(w[w.len() - 1].timestamp.since(&w[0].timestamp));
    let elapsed: i64 = if raw < 1 {
        1
    } else {
        raw as i64
    };
    assert(elapsed as int == elapsed_seconds(w@));
    let secs: Single = f(Calc::OfInt(elapsed));
    assert(gives(*f, Calc::OfInt(elapsed), secs));
    let minutes: Single = f(Calc::Div(secs, Single { bits: SIXTY }));
    assert(gives(*f, Calc::Div(secs, Single { bits: SIXTY }), minutes));
    let count: Single = f(Calc::OfInt(w.len() as i64));
    assert(gives(*f, Calc::OfInt(w@.len() as i64), count));
    let res: Single = f(Calc::Div(count, minutes));
    assert(gives(*f, Calc::Div(count, minutes), res));
    res
}

/// `res` is what becomes of the message `msg` at `now`, where its group has the
/// earlier messages `before` and the groups had their last bursts at `last`: a
/// burst where the conversation is crowded, heated and past its cooldown, and
/// nothing otherwise.
pub open spec fn burst_gives<F: Fn(Calc) -> Single>(
    f: F,
    c: SensoryConfig,
    before: Seq<ChatMessage>,
    last: Map<Seq<char>, Timestamp>,
    msg: ChatMessage,
    now: Timestamp,
    res: Option<TopicBurst>,
) -> bool {
    let w = next_window(c, before, msg, now);
    if !c.burst_detection_enabled || !crowded(c, w) {
        res is None
    } else {
        exists|rate: Single, gap: Single|
            #![trigger rate_gives(f, w, rate), average_gives(f, w, gap)]
            {
                &&& rate_gives(f, w, rate)
                &&& average_gives(f, w, gap)
                &&& match res {
                    None => !heated(c, rate, gap) || !cooled(c, last, msg.group_id@, now),
                    Some(burst) => {
                        &&& heated(c, rate, gap)
                        &&& cooled(c, last, msg.group_id@, now)
                        &&& burst.group_id@ == msg.group_id@
                        &&& burst.messages@ == w
                        &&& burst.score == (TopicBurstScore {
                            messages_per_minute: rate,
                            unique_participants: participants(w) as usize,
                            avg_gap_seconds: gap,
                            coherence: None,
                        })
                        &&& burst.detected_at == now
                    },
                }
            }
    }
}

/// The messages that are looked at once `msg` has come in at `now`.
pub open spec fn next_window(
    c: SensoryConfig,
    before: Seq<ChatMessage>,
    msg: ChatMessage,
    now: Timestamp,
) -> Seq<ChatMessage> {
    latest(young(before.push(msg), now, c.window_span()))
}

/// The ids that are remembered when a message comes in: none, where there
/// were `limit` or more.
pub open spec fn remembered(seen: Set<MessageId>, limit: nat) -> Set<MessageId> {
    if seen.len() >= limit {
        Set::empty()
    } else {
        seen
    }
}

/// What is to be done about an event.
#[derive(Debug)]
pub enum SensoryEffect {
    /// Nothing.
    Nothing,
    /// Forward the message and the new state of its sender, then write the
    /// buffer out where that is asked for, then forward the burst.
    Forward { message: ChatMessage, state: AffectiveState, flush: bool, burst: Option<TopicBurst> },
}

/// `events` are what the second layer gets for a message: the message itself,
/// and then the new state of its sender.
pub open spec fn forwards(events: Seq<Event>, message: ChatMessage, state: AffectiveState) -> bool {
    &&& events.len() == 2
    &&& events[0] == Event::IncomingMessage(message)
    &&& events[1] matches Event::AffectiveUpdated(group, user, now) && group@ == message.group_id@
        && user@ == message.sender@ && now == state
}

/// What the second layer gets for a message, in order.
pub fn forwarded(message: ChatMessage, state: AffectiveState) -> (res: Vec<Event>)
    ensures
        forwards(res@, message, state),
{
    let group: GroupId = message.group_id.clone();
    let sender: UserId = message.sender.clone();
    let mut events: Vec<Event> = Vec::new();
    events.push(Event::IncomingMessage(message));
    events.push(Event::AffectiveUpdated(group, sender, state));
    events
}

/// The messages of the burst, if there is one, carry points in time that the
/// calendar covers.
pub open spec fn burst_dated(effect: SensoryEffect) -> bool {
    effect matches SensoryEffect::Forward { burst: Some(b), .. } ==> dated(b.messages@)
}

/// What is to be written out.
#[derive(Debug)]
pub struct FlushPlan {
    pub batch: Vec<ChatMessage>,
    /// The ids of the batch, to be marked as processed.
    pub ids: Vec<MessageId>,
    pub states: Vec<(GroupId, UserId, AffectiveState)>,
}

/// Maintains the states, the buffer and the windows of the first layer.
pub struct SensoryActor {
    config: SensoryConfig,
    states: StateMap,
    buffer: Vec<ChatMessage>,
    recent_senders: HashSet<MessageId>,
    burst_windows: WindowMap,
    last_burst: TimeMap,
}

impl SensoryActor {
    /// The settings.
    pub closed spec fn settings(self) -> SensoryConfig {
        self.config
    }

    /// The states by group and user.
    pub closed spec fn states_view(self) -> Map<(Seq<char>, Seq<char>), AffectiveState> {
        state_entries(self.states)
    }

    /// The messages not yet written out.
    pub closed spec fn buffered(self) -> Seq<ChatMessage> {
        self.buffer@
    }

    /// The ids of recent messages.
    pub closed spec fn seen(self) -> Set<MessageId> {
        self.recent_senders@
    }

    /// The recent messages by group.
    pub closed spec fn windows(self) -> Map<Seq<char>, Seq<ChatMessage>> {
        window_entries(self.burst_windows)
    }

    /// When each group last had a burst.
    pub closed spec fn bursts(self) -> Map<Seq<char>, Timestamp> {
        time_entries(self.last_burst)
    }

    /// The settings are usable, and every stored point in time is covered by
    /// the calendar.
    pub open spec fn wf(self) -> bool {
        &&& self.settings().valid()
        &&& self.seen().finite()
        &&& forall|k: (Seq<char>, Seq<char>)| #[trigger]
            self.states_view().contains_key(k) ==> match self.states_view()[k].last_updated {
                Some(t) => t.valid(),
                None => true,
            }
        &&& forall|k: Seq<char>| #[trigger]
            self.windows().contains_key(k) ==> dated(self.windows()[k])
    }

    /// A layer that has seen nothing yet.
    pub fn new(config: SensoryConfig) -> (res: Self)
        requires
            config.valid(),
        ensures
            res.wf(),
            res.settings() == config,
            res.states_view() == Map::<(Seq<char>, Seq<char>), AffectiveState>::empty(),
            res.buffered() == Seq::<ChatMessage>::empty(),
            res.seen() == Set::<MessageId>::empty(),
            res.windows() == Map::<Seq<char>, Seq<ChatMessage>>::empty(),
            res.bursts() == Map::<Seq<char>, Timestamp>::empty(),
    {
        SensoryActor {
            config,
            states: states_new(),
            buffer: Vec::new(),
            recent_senders: HashSet::new(),
            burst_windows: windows_new(),
            last_burst: times_new(),
        }
    }

    /// Takes up the message in the window of its group; gives the burst where
    /// the conversation has heated up by `now`.
    pub fn detect_burst_at<F: Fn(Calc) -> Single>(
        &mut self,
        msg: &ChatMessage,
        now: Timestamp,
        f: &F,
    ) -> (res: Option<TopicBurst>)
        requires
            old(self).wf(),
            total(*f),
            msg.timestamp.valid(),
        ensures
            final(self).wf(),
            final(self).settings() == old(self).settings(),
            final(self).states_view() == old(self).states_view(),
            final(self).buffered() == old(self).buffered(),
            final(self).seen() == old(self).seen(),
            final(self).windows() == windows_after(
                old(self).settings(),
                old(self).windows(),
                *msg,
                now,
            ),
            final(self).bursts() == if res is Some {
                old(self).bursts().insert(msg.group_id@, now)
            } else {
                old(self).bursts()
            },
            burst_gives(
                *f,
                old(self).settings(),
                window_of(old(self).windows(), msg.group_id@),
                old(self).bursts(),
                *msg,
                now,
                res,
            ),
            res matches Some(burst) ==> dated(burst.messages@),
    {
        if !self.config.burst_detection_enabled {
            return None;
        }
        let ghost before = window_of(self.windows(), msg.group_id@);
        let ghost had = self.windows();
        let mut all: Vec<ChatMessage> = match windows_take(&mut self.burst_windows, &msg.group_id) {
            Some(v) => v,
            None => Vec::new(),
        };
        assert(all@ =~= before);
        assert(dated(all@));
        all.push(msg.clone());
        let span: i128 = if self.config.burst_window_sec <= MAX_SPAN_SECS {
            self.config.burst_window_sec as i128 * 1_000_000_000
        } else {
            0
        };
        let kept: Vec<ChatMessage> = trim_window(&all, &now, span);
        let ghost w = next_window(self.config, before, *msg, now);
        proof {
            lemma_window_dated(all@, now, span as int);
            assert(kept@ == w);
            lemma_window_bounded(all@, now, span as int);
        }
        let window: Vec<ChatMessage> = copy_messages(&kept);
        windows_put(&mut self.burst_windows, msg.group_id.clone(), kept);
        proof {
            assert(self.windows() =~= had.insert(msg.group_id@, w));
        }
        if window.len() < 2 || window.len() < self.config.burst_threshold_participants {
            return None;
        }
        let people: usize = count_participants(&window);
        if people < self.config.burst_threshold_participants {
            return None;
        }
        let gap: Single = average_gap(&window, f);
        let rate: Single = message_rate(&window, f);
        assert(rate_gives(*f, w, rate) && average_gives(*f, w, gap));
        if rate.lt(&self.config.burst_threshold_mpm) {
            return None;
        }
        if self.config.burst_threshold_gap_sec.lt(&gap) {
            return None;
        }
        let cooldown: i128 = self.config.cooldown_nanos();
        if let Some(last) = times_get(&self.last_burst, &msg.group_id) {
            if now.since(&last) <= cooldown {
                return None;
            }
        }
        times_put(&mut self.last_burst, msg.group_id.clone(), now);
        Some(
            TopicBurst {
                group_id: msg.group_id.clone(),
                messages: window,
                score: TopicBurstScore {
                    messages_per_minute: rate,
                    unique_participants: people,
                    avg_gap_seconds: gap,
                    coherence: None,
                },
                detected_at: now,
            },
        )
    }

    /// Takes up the message in the window of its group; gives the burst where
    /// the conversation has heated up.
    pub fn detect_burst<F: Fn(Calc) -> Single>(&mut self, msg: &ChatMessage, f: &F) -> (res: Option<
        TopicBurst,
    >)
        requires
            old(self).wf(),
            total(*f),
            msg.timestamp.valid(),
        ensures
            final(self).wf(),
            exists|now: Timestamp| #[trigger]
                now.valid() && burst_taken(*f, *old(self), *msg, now, *final(self), res),
            res matches Some(burst) ==> dated(burst.messages@),
    {
        let now: Timestamp = Timestamp::now();
        let res: Option<TopicBurst> = self.detect_burst_at(msg, now, f);
        assert(now.valid() && burst_taken(*f, *old(self), *msg, now, *self, res));
        res
    }

    /// Lets the state of a user decay until `now` and raises its energy for a
    /// message; gives the new state.
    pub fn touch_state_at<F: Fn(Calc) -> Single>(
        &mut self,
        group_id: &GroupId,
        user_id: &UserId,
        now: Timestamp,
        f: &F,
    ) -> (res: AffectiveState)
        requires
            old(self).wf(),
            total(*f),
            now.valid(),
        ensures
            final(self).wf(),
            final(self).settings() == old(self).settings(),
            final(self).buffered() == old(self).buffered(),
            final(self).seen() == old(self).seen(),
            final(self).windows() == old(self).windows(),
            final(self).bursts() == old(self).bursts(),
            final(self).states_view() == old(self).states_view().insert((group_id@, user_id@), res),
            touched(
                *f,
                old(self).settings(),
                state_of(old(self).states_view(), (group_id@, user_id@)),
                now,
                res,
            ),
    {
        let key: (String, String) = (group_id.clone(), user_id.clone());
        let before: AffectiveState = match states_get(&self.states, &key) {
            Some(state) => state,
            None => AffectiveState::default(),
        };
        assert(before == state_of(self.states_view(), (group_id@, user_id@)));
        let mut state: AffectiveState = before;
        if let Some(last) = before.last_updated {
            assert(last.valid());
            let elapsed: i64 = span_seconds(now.since(&last)) as i64;
            assert(elapsed as int == truncated(now.total() - last.total(), 1_000_000_000));
            let secs: Single = f(Calc::OfInt(elapsed));
            assert(gives(*f, Calc::OfInt(elapsed), secs));
            let minutes: Single = f(Calc::Div(secs, Single { bits: SIXTY }));
            assert(gives(*f, Calc::Div(secs, Single { bits: SIXTY }), minutes));
            state.decay(
                minutes,
                self.config.energy_decay_per_min,
                self.config.favor_decay_per_min,
                f,
            );
        }
        let ghost mid = state;
        let raised: Single = f(Calc::Add(state.energy, Single { bits: TOUCH_ENERGY }));
        assert(gives(*f, Calc::Add(mid.energy, Single { bits: TOUCH_ENERGY }), raised));
        state.energy = raised.min(Single { bits: ONE });
        state.last_updated = Some(now);
        states_put(&mut self.states, key, state);
        proof {
            lemma_wf_kept(*old(self), *self, (group_id@, user_id@), state);
        }
        state
    }

    /// Applies a reply to the state of the user it went to. Where the count of
    /// replies cannot grow, the state stays as it is, and `false` is given.
    pub fn handle_reply_at<F: Fn(Calc) -> Single>(
        &mut self,
        reply: &ReplyOut,
        now: Timestamp,
        f: &F,
    ) -> (res: bool)
        requires
            old(self).wf(),
            total(*f),
            now.valid(),
        ensures
            final(self).wf(),
            reply_taken(*f, *old(self), *reply, now, *final(self), res),
    {
        let key: (String, String) = (reply.group_id.clone(), reply.target_user.clone());
        let mut state: AffectiveState = match states_get(&self.states, &key) {
            Some(state) => state,
            None => AffectiveState::default(),
        };
        if state.reply_count == u64::MAX {
            return false;
        }
        state.on_reply(Single { bits: REPLY_QUALITY }, now, f);
        states_put(&mut self.states, key, state);
        proof {
            lemma_wf_kept(*old(self), *self, (reply.group_id@, reply.target_user@), state);
        }
        true
    }

    /// Takes in a message, with the states brought up to `state_time` and the
    /// conversation looked at by `burst_time`.
    pub fn handle_message_at<F: Fn(Calc) -> Single>(
        &mut self,
        msg: &ChatMessage,
        state_time: Timestamp,
        burst_time: Timestamp,
        f: &F,
    ) -> (res: SensoryEffect)
        requires
            old(self).wf(),
            total(*f),
            msg.timestamp.valid(),
            state_time.valid(),
        ensures
            final(self).wf(),
            message_taken(*f, *old(self), *msg, state_time, burst_time, *final(self), res),
            burst_dated(res),
    {
        if self.recent_senders.len() >= self.config.max_recent_messages {
            self.recent_senders.clear();
        }
        let ghost kept = self.recent_senders@;
        let fresh: bool = self.recent_senders.insert(msg.id);
        assert(self.states_view() == old(self).states_view());
        assert(self.windows() == old(self).windows());
        assert(self.wf());
        if !fresh {
            assert(kept.insert(msg.id) =~= kept);
            return SensoryEffect::Nothing;
        }
        let state: AffectiveState = self.touch_state_at(&msg.group_id, &msg.sender, state_time, f);
        self.buffer.push(msg.clone());
        let flush: bool = self.buffer.len() >= self.config.batch_size;
        let burst: Option<TopicBurst> = self.detect_burst_at(msg, burst_time, f);
        SensoryEffect::Forward { message: msg.clone(), state, flush, burst }
    }

    /// Takes in a message that has come in now.
    pub fn handle_message<F: Fn(Calc) -> Single>(&mut self, msg: &ChatMessage, f: &F) -> (res:
        SensoryEffect)
        requires
            old(self).wf(),
            total(*f),
            msg.timestamp.valid(),
        ensures
            final(self).wf(),
            message_handled(*f, *old(self), *msg, *final(self), res),
            burst_dated(res),
    {
        let state_time: Timestamp = Timestamp::now();
        let burst_time: Timestamp = Timestamp::now();
        self.handle_message_at(msg, state_time, burst_time, f)
    }

    /// Applies a reply that has been sent now.
    pub fn handle_reply<F: Fn(Calc) -> Single>(&mut self, reply: &ReplyOut, f: &F) -> (res: bool)
        requires
            old(self).wf(),
            total(*f),
        ensures
            final(self).wf(),
            exists|now: Timestamp|
                now.valid() && #[trigger] reply_taken(
                    *f,
                    *old(self),
                    *reply,
                    now,
                    *final(self),
                    res,
                ),
    {
        let now: Timestamp = Timestamp::now();
        self.handle_reply_at(reply, now, f)
    }

    /// Takes in an event: a message, or a reply that was sent. Other events
    /// leave the layer as it is.
    pub fn handle_event<F: Fn(Calc) -> Single>(&mut self, event: &Event, f: &F) -> (res:
        SensoryEffect)
        requires
            old(self).wf(),
            total(*f),
            match *event {
                Event::IncomingMessage(msg) => msg.timestamp.valid(),
                _ => true,
            },
        ensures
            final(self).wf(),
            match *event {
                Event::IncomingMessage(msg) => message_handled(
                    *f,
                    *old(self),
                    msg,
                    *final(self),
                    res,
                ),
                Event::ReplyOut(reply) => res is Nothing && exists|now: Timestamp, done: bool|
                    now.valid() && #[trigger] reply_taken(
                        *f,
                        *old(self),
                        reply,
                        now,
                        *final(self),
                        done,
                    ),
                _ => res is Nothing && *final(self) == *old(self),
            },
            burst_dated(res),
    {
        match event {
            Event::IncomingMessage(msg) => self.handle_message(msg, f),
            Event::ReplyOut(reply) => {
                let _done: bool = self.handle_reply(reply, f);
                SensoryEffect::Nothing
            },
            _ => SensoryEffect::Nothing,
        }
    }

    /// Takes up states that were stored earlier, a later one in place of an
    /// earlier one of the same user.
    pub fn restore(&mut self, stored: Vec<(GroupId, UserId, AffectiveState)>)
        requires
            old(self).wf(),
            forall|i: int|
                0 <= i < stored@.len() ==> match (#[trigger] stored@[i]).2.last_updated {
                    Some(t) => t.valid(),
                    None => true,
                },
        ensures
            final(self).wf(),
            taken_up(*old(self), stored@, *final(self)),
    {
        let mut i: usize = 0;
        while i < stored.len()
            invariant
                0 <= i <= stored@.len(),
                self.wf(),
                forall|i: int|
                    0 <= i < stored@.len() ==> match (#[trigger] stored@[i]).2.last_updated {
                        Some(t) => t.valid(),
                        None => true,
                    },
                self.settings() == old(self).settings(),
                self.buffered() == old(self).buffered(),
                self.seen() == old(self).seen(),
                self.windows() == old(self).windows(),
                self.bursts() == old(self).bursts(),
                self.states_view() == restored(old(self).states_view(), stored@.take(i as int)),
            decreases stored@.len() - i,
        {
            assert(stored@.take(i + 1).drop_last() =~= stored@.take(i as int));
            assert(stored@.take(i + 1).last() == stored@[i as int]);
            states_put(&mut self.states, (stored[i].0.clone(), stored[i].1.clone()), stored[i].2);
            i = i + 1;
        }
        assert(stored@.take(i as int) =~= stored@);
    }

    /// Takes the messages that are to be written out, with their ids.
    pub fn take_batch(&mut self) -> (res: (Vec<ChatMessage>, Vec<MessageId>))
        requires
            old(self).wf(),
        ensures
            final(self).wf(),
            written_out(*old(self), *final(self), res.0@, res.1@),
    {
        let mut batch: Vec<ChatMessage> = Vec::new();
        batch.append(&mut self.buffer);
        assert(batch@ =~= old(self).buffered());
        assert(self.states_view() == old(self).states_view());
        assert(self.windows() == old(self).windows());
        let mut ids: Vec<MessageId> = Vec::new();
        let mut i: usize = 0;
        while i < batch.len()
            invariant
                0 <= i <= batch@.len(),
                ids@ == batch@.take(i as int).map_values(|m: ChatMessage| m.id),
            decreases batch@.len() - i,
        {
            ids.push(batch[i].id);
            assert(ids@ =~= batch@.take(i + 1).map_values(|m: ChatMessage| m.id));
            i = i + 1;
        }
        assert(batch@.take(i as int) =~= batch@);
        (batch, ids)
    }

    /// What is to be written out: the buffered messages with their ids, and
    /// every state.
    pub fn flush(&mut self) -> (res: FlushPlan)
        requires
            old(self).wf(),
        ensures
            final(self).wf(),
            written_out(*old(self), *final(self), res.batch@, res.ids@),
            lists_states(old(self).states_view(), res.states@),
    {
        let (batch, ids) = self.take_batch();
        let states: Vec<(GroupId, UserId, AffectiveState)> = self.states_to_persist();
        FlushPlan { batch, ids, states }
    }

    /// Every state, to be stored, in no particular order.
    pub fn states_to_persist(&self) -> (res: Vec<(GroupId, UserId, AffectiveState)>)
        ensures
            lists_states(self.states_view(), res@),
    {
        states_list(&self.states)
    }
}

/// The buffer was emptied: `batch` are its messages, to be written out, and `ids`
/// their ids. Nothing else changed.
pub open spec fn written_out(
    before: SensoryActor,
    after: SensoryActor,
    batch: Seq<ChatMessage>,
    ids: Seq<MessageId>,
) -> bool {
    &&& after.settings() == before.settings()
    &&& after.states_view() == before.states_view()
    &&& after.seen() == before.seen()
    &&& after.windows() == before.windows()
    &&& after.bursts() == before.bursts()
    &&& after.buffered() == Seq::<ChatMessage>::empty()
    &&& batch == before.buffered()
    &&& ids == batch.map_values(|m: ChatMessage| m.id)
}

/// The states of `stored` were taken up, a later one in place of an earlier one of
/// the same user. Nothing else changed.
pub open spec fn taken_up(
    before: SensoryActor,
    stored: Seq<(GroupId, UserId, AffectiveState)>,
    after: SensoryActor,
) -> bool {
    &&& after.settings() == before.settings()
    &&& after.buffered() == before.buffered()
    &&& after.seen() == before.seen()
    &&& after.windows() == before.windows()
    &&& after.bursts() == before.bursts()
    &&& after.states_view() == restored(before.states_view(), stored)
}

/// `list` holds every entry of `m`, each once.
pub open spec fn lists_states(
    m: Map<(Seq<char>, Seq<char>), AffectiveState>,
    list: Seq<(GroupId, UserId, AffectiveState)>,
) -> bool {
    &&& forall|i: int|
        0 <= i < list.len() ==> m.contains_pair(((#[trigger] list[i]).0@, list[i].1@), list[i].2)
    &&& forall|k: (Seq<char>, Seq<char>)| #[trigger]
        m.contains_key(k) ==> exists|i: int|
            0 <= i < list.len() && ((#[trigger] list[i]).0@, list[i].1@) == k
    &&& forall|i: int, j: int|
        0 <= i < j < list.len() ==> ((#[trigger] list[i]).0@, list[i].1@) != ((
        #[trigger] list[j]).0@, list[j].1@)
}

/// The states `m` with those of `list` set on top, from the first to the last.
pub open spec fn restored(
    m: Map<(Seq<char>, Seq<char>), AffectiveState>,
    list: Seq<(GroupId, UserId, AffectiveState)>,
) -> Map<(Seq<char>, Seq<char>), AffectiveState>
    decreases list.len(),
{
    if list.len() == 0 {
        m
    } else {
        restored(m, list.drop_last()).insert((list.last().0@, list.last().1@), list.last().2)
    }
}

/// The window of the group of `msg` has taken it up at `now`, with the outcome `res`.
pub open spec fn burst_taken<F: Fn(Calc) -> Single>(
    f: F,
    before: SensoryActor,
    msg: ChatMessage,
    now: Timestamp,
    after: SensoryActor,
    res: Option<TopicBurst>,
) -> bool {
    &&& after.settings() == before.settings()
    &&& after.states_view() == before.states_view()
    &&& after.buffered() == before.buffered()
    &&& after.seen() == before.seen()
    &&& after.windows() == windows_after(before.settings(), before.windows(), msg, now)
    &&& after.bursts() == if res is Some {
        before.bursts().insert(msg.group_id@, now)
    } else {
        before.bursts()
    }
    &&& burst_gives(
        f,
        before.settings(),
        window_of(before.windows(), msg.group_id@),
        before.bursts(),
        msg,
        now,
        res,
    )
}

/// The state of the user that `reply` went to has taken it up at `now`; where
/// its count could not grow, nothing changed and `done` is false.
pub open spec fn reply_taken<F: Fn(Calc) -> Single>(
    f: F,
    before: SensoryActor,
    reply: ReplyOut,
    now: Timestamp,
    after: SensoryActor,
    done: bool,
) -> bool {
    let key = (reply.group_id@, reply.target_user@);
    let state = state_of(before.states_view(), key);
    &&& after.settings() == before.settings()
    &&& after.buffered() == before.buffered()
    &&& after.seen() == before.seen()
    &&& after.windows() == before.windows()
    &&& after.bursts() == before.bursts()
    &&& done == (state.reply_count < u64::MAX)
    &&& if done {
        &&& after.states_view() == before.states_view().insert(key, after.states_view()[key])
        &&& replied(f, state, Single { bits: REPLY_QUALITY }, now, after.states_view()[key])
    } else {
        after.states_view() == before.states_view()
    }
}

/// What becomes of the message `msg`: one whose id is remembered changes
/// nothing but the memory of ids; any other is forwarded with the touched
/// state of its sender, buffered, and taken up in the window of its group.
pub open spec fn message_taken<F: Fn(Calc) -> Single>(
    f: F,
    before: SensoryActor,
    msg: ChatMessage,
    state_time: Timestamp,
    burst_time: Timestamp,
    after: SensoryActor,
    res: SensoryEffect,
) -> bool {
    let c = before.settings();
    let ids = remembered(before.seen(), c.max_recent_messages as nat);
    let key = (msg.group_id@, msg.sender@);
    &&& after.settings() == c
    &&& after.seen() == ids.insert(msg.id)
    &&& match res {
        SensoryEffect::Nothing => {
            &&& ids.contains(msg.id)
            &&& after.states_view() == before.states_view()
            &&& after.buffered() == before.buffered()
            &&& after.windows() == before.windows()
            &&& after.bursts() == before.bursts()
        },
        SensoryEffect::Forward { message, state, flush, burst } => {
            &&& !ids.contains(msg.id)
            &&& message == msg
            &&& touched(f, c, state_of(before.states_view(), key), state_time, state)
            &&& after.states_view() == before.states_view().insert(key, state)
            &&& after.buffered() == before.buffered().push(msg)
            &&& flush == (after.buffered().len() >= c.batch_size)
            &&& after.windows() == windows_after(c, before.windows(), msg, burst_time)
            &&& after.bursts() == if burst is Some {
                before.bursts().insert(msg.group_id@, burst_time)
            } else {
                before.bursts()
            }
            &&& burst_gives(
                f,
                c,
                window_of(before.windows(), msg.group_id@),
                before.bursts(),
                msg,
                burst_time,
                burst,
            )
        },
    }
}

/// What becomes of the message `msg` at some point in time.
pub open spec fn message_handled<F: Fn(Calc) -> Single>(
    f: F,
    before: SensoryActor,
    msg: ChatMessage,
    after: SensoryActor,
    res: SensoryEffect,
) -> bool {
    exists|t1: Timestamp, t2: Timestamp|
        t1.valid() && t2.valid() && #[trigger] message_taken(f, before, msg, t1, t2, after, res)
}

/// `after` has the settings of `before` and, unless the memory was full, still
/// remembers the ids that `before` remembered.
pub open spec fn keeps_ids(before: SensoryActor, after: SensoryActor) -> bool {
    &&& after.settings() == before.settings()
    &&& before.seen().len() < before.settings().max_recent_messages ==> before.seen().subset_of(
        after.seen(),
    )
}

/// Whatever message or reply comes in, the ids stay remembered unless the memory
/// was full, and that of the message is.
pub proof fn law_ids_stay_remembered<F: Fn(Calc) -> Single>(
    f: F,
    before: SensoryActor,
    msg: ChatMessage,
    taken: SensoryActor,
    res: SensoryEffect,
    reply: ReplyOut,
    now: Timestamp,
    replied: SensoryActor,
    done: bool,
)
    requires
        message_handled(f, before, msg, taken, res),
        reply_taken(f, before, reply, now, replied, done),
    ensures
        keeps_ids(before, taken),
        taken.seen().contains(msg.id),
        keeps_ids(before, replied),
{
}

/// The windows once `msg` has come in at `now`.
pub open spec fn windows_after(
    c: SensoryConfig,
    before: Map<Seq<char>, Seq<ChatMessage>>,
    msg: ChatMessage,
    now: Timestamp,
) -> Map<Seq<char>, Seq<ChatMessage>> {
    if c.burst_detection_enabled {
        before.insert(
            msg.group_id@,
            next_window(c, window_of(before, msg.group_id@), msg, now),
        )
    } else {
        before
    }
}

/// A message whose id is not remembered goes to the second layer: first the
/// message, then the state that its sender now has.
pub proof fn law_new_message_is_forwarded<F: Fn(Calc) -> Single>(
    f: F,
    before: SensoryActor,
    msg: ChatMessage,
    after: SensoryActor,
    res: SensoryEffect,
)
    requires
        message_handled(f, before, msg, after, res),
        !before.seen().contains(msg.id),
    ensures
        after.buffered() == before.buffered().push(msg),
        res matches SensoryEffect::Forward { message, state, .. } && forall|events: Seq<Event>|
            #[trigger] forwards(events, message, state) ==> {
                &&& events.len() == 2
                &&& events[0] == Event::IncomingMessage(msg)
                &&& events[1] matches Event::AffectiveUpdated(group, user, now)
                    && group@ == msg.group_id@ && user@ == msg.sender@
                    && now == after.states_view()[(msg.group_id@, msg.sender@)]
            },
{
}

/// A message that was taken in is not taken in again, whatever came between, as
/// long as the memory of ids was not full: nothing is forwarded, buffered or
/// counted. `run` are the states of the layer from the first time on.
pub proof fn law_repeat_is_dropped<F: Fn(Calc) -> Single>(
    f: F,
    first: SensoryActor,
    msg: ChatMessage,
    res: SensoryEffect,
    run: Seq<SensoryActor>,
    again: ChatMessage,
    after: SensoryActor,
    res_again: SensoryEffect,
)
    requires
        run.len() > 0,
        message_handled(f, first, msg, run[0], res),
        forall|i: int| 0 <= i < run.len() - 1 ==> keeps_ids(#[trigger] run[i], run[i + 1]),
        forall|i: int|
            0 <= i < run.len() ==> (#[trigger] run[i]).seen().len()
                < run[i].settings().max_recent_messages,
        again.id == msg.id,
        message_handled(f, run.last(), again, after, res_again),
    ensures
        res_again is Nothing,
        after.states_view() == run.last().states_view(),
        after.buffered() == run.last().buffered(),
        after.windows() == run.last().windows(),
        after.bursts() == run.last().bursts(),
{
    lemma_id_kept(run, msg.id, run.len() - 1);
    assert(remembered(
        run.last().seen(),
        run.last().settings().max_recent_messages as nat,
    ).contains(msg.id));
}

proof fn lemma_id_kept(run: Seq<SensoryActor>, id: MessageId, n: int)
    requires
        0 <= n < run.len(),
        run[0].seen().contains(id),
        forall|i: int| 0 <= i < run.len() - 1 ==> keeps_ids(#[trigger] run[i], run[i + 1]),
        forall|i: int|
            0 <= i < run.len() ==> (#[trigger] run[i]).seen().len()
                < run[i].settings().max_recent_messages,
    ensures
        run[n].seen().contains(id),
    decreases n,
{
    if n > 0 {
        lemma_id_kept(run, id, n - 1);
        assert(keeps_ids(run[n - 1], run[n - 1 + 1]));
    }
}

/// Two bursts of one group lie more than the cooldown apart.
pub proof fn law_bursts_keep_cooldown<F: Fn(Calc) -> Single>(
    f: F,
    first: SensoryActor,
    msg: ChatMessage,
    t1: Timestamp,
    second: SensoryActor,
    burst: TopicBurst,
    later: ChatMessage,
    t2: Timestamp,
    third: SensoryActor,
    next: TopicBurst,
)
    requires
        burst_taken(f, first, msg, t1, second, Some(burst)),
        burst_taken(f, second, later, t2, third, Some(next)),
        later.group_id@ == msg.group_id@,
    ensures
        next.detected_at.total() - burst.detected_at.total() > first.settings().cooldown_secs()
            * 1_000_000_000,
{
    assert(second.bursts().contains_key(msg.group_id@));
}

/// A burst holds no more messages than the window takes, as many senders as
/// asked for, and only messages that are young enough.
pub proof fn law_burst_within_window<F: Fn(Calc) -> Single>(
    f: F,
    before: SensoryActor,
    msg: ChatMessage,
    now: Timestamp,
    after: SensoryActor,
    burst: TopicBurst,
)
    requires
        burst_taken(f, before, msg, now, after, Some(burst)),
    ensures
        2 <= burst.messages@.len() <= MAX_WINDOW_SIZE,
        participants(burst.messages@) >= before.settings().burst_threshold_participants,
        forall|i: int|
            0 <= i < burst.messages@.len() ==> now.total() - (
            #[trigger] burst.messages@[i]).timestamp.total() < before.settings().window_span(),
{
    let c = before.settings();
    let all = window_of(before.windows(), msg.group_id@).push(msg);
    let p = |m: ChatMessage| now.total() - m.timestamp.total() < c.window_span();
    assert forall|i: int| 0 <= i < burst.messages@.len() implies now.total() - (
    #[trigger] burst.messages@[i]).timestamp.total() < c.window_span() by {
        let kept = all.filter(p);
        let skipped = kept.len() - burst.messages@.len();
        assert(burst.messages@[i] == kept[i + skipped]);
        all.lemma_filter_pred(p, i + skipped);
    }
}

/// A message leaves the energy of its sender at one or less, and counts no
/// reply.
pub proof fn law_touch_limits_energy<F: Fn(Calc) -> Single>(
    f: F,
    c: SensoryConfig,
    before: AffectiveState,
    now: Timestamp,
    after: AffectiveState,
)
    requires
        touched(f, c, before, now, after),
    ensures
        !after.energy.nan(),
        after.energy.rank() <= (Single { bits: ONE }).rank(),
        after.reply_count == before.reply_count,
        after.last_updated == Some(now),
{
}

/// A reply counts once, for the user it went to and for nobody else.
pub proof fn law_reply_counts_once<F: Fn(Calc) -> Single>(
    f: F,
    before: SensoryActor,
    reply: ReplyOut,
    now: Timestamp,
    after: SensoryActor,
)
    requires
        reply_taken(f, before, reply, now, after, true),
    ensures
        after.states_view()[(reply.group_id@, reply.target_user@)].reply_count == state_of(
            before.states_view(),
            (reply.group_id@, reply.target_user@),
        ).reply_count + 1,
        forall|k: (Seq<char>, Seq<char>)|
            k != (reply.group_id@, reply.target_user@) ==> #[trigger] state_of(
                after.states_view(),
                k,
            ) == state_of(before.states_view(), k),
{
}

/// States that were stored and taken up again by a fresh layer are the states
/// that they were.
pub proof fn law_states_survive_restart(
    m: Map<(Seq<char>, Seq<char>), AffectiveState>,
    list: Seq<(GroupId, UserId, AffectiveState)>,
)
    requires
        lists_states(m, list),
    ensures
        restored(Map::empty(), list) == m,
{
    lemma_restored(list, list.len() as int);
    assert(list.take(list.len() as int) =~= list);
    let r = restored(Map::empty(), list);
    assert forall|k: (Seq<char>, Seq<char>)| #[trigger] r.contains_key(k) <==> m.contains_key(k) by {
        if m.contains_key(k) {
            let i = choose|i: int| 0 <= i < list.len() && ((#[trigger] list[i]).0@, list[i].1@) == k;
            assert(r.contains_pair((list[i].0@, list[i].1@), list[i].2));
        }
        if r.contains_key(k) {
            let i = choose|i: int| 0 <= i < list.len() && ((#[trigger] list[i]).0@, list[i].1@) == k;
            assert(m.contains_pair((list[i].0@, list[i].1@), list[i].2));
        }
    }
    assert forall|k: (Seq<char>, Seq<char>)| #[trigger] r.contains_key(k) implies r[k] == m[k] by {
        let i = choose|i: int| 0 <= i < list.len() && ((#[trigger] list[i]).0@, list[i].1@) == k;
        assert(m.contains_pair((list[i].0@, list[i].1@), list[i].2));
        assert(r.contains_pair((list[i].0@, list[i].1@), list[i].2));
    }
    assert(r =~= m);
}

proof fn lemma_restored(list: Seq<(GroupId, UserId, AffectiveState)>, n: int)
    requires
        0 <= n <= list.len(),
        forall|i: int, j: int|
            0 <= i < j < list.len() ==> ((#[trigger] list[i]).0@, list[i].1@) != ((
            #[trigger] list[j]).0@, list[j].1@),
    ensures
        forall|k: (Seq<char>, Seq<char>)| #[trigger]
            restored(Map::empty(), list.take(n)).contains_key(k) ==> exists|i: int|
                0 <= i < n && ((#[trigger] list[i]).0@, list[i].1@) == k,
        forall|i: int|
            0 <= i < n ==> restored(Map::empty(), list.take(n)).contains_pair(
                ((#[trigger] list[i]).0@, list[i].1@),
                list[i].2,
            ),
    decreases n,
{
    if n > 0 {
        lemma_restored(list, n - 1);
        assert(list.take(n).drop_last() =~= list.take(n - 1));
        assert(list.take(n).last() == list[n - 1]);
        let r = restored(Map::empty(), list.take(n));
        let r0 = restored(Map::empty(), list.take(n - 1));
        assert forall|k: (Seq<char>, Seq<char>)| #[trigger] r.contains_key(k) implies exists|i: int|
            0 <= i < n && ((#[trigger] list[i]).0@, list[i].1@) == k by {
            if k == (list[n - 1].0@, list[n - 1].1@) {
                assert(0 <= n - 1 < n && (list[n - 1].0@, list[n - 1].1@) == k);
            } else {
                assert(r0.contains_key(k));
            }
        }
    }
}

proof fn lemma_wf_kept(
    before: SensoryActor,
    after: SensoryActor,
    key: (Seq<char>, Seq<char>),
    state: AffectiveState,
)
    requires
        before.wf(),
        after.settings() == before.settings(),
        after.seen() == before.seen(),
        after.windows() == before.windows(),
        after.states_view() == before.states_view().insert(key, state),
        match state.last_updated {
            Some(t) => t.valid(),
            None => true,
        },
    ensures
        after.wf(),
{
    assert forall|k: (Seq<char>, Seq<char>)| #[trigger]
        after.states_view().contains_key(k) implies match after.states_view()[k].last_updated {
        Some(t) => t.valid(),
        None => true,
    } by {
        if k != key {
            assert(before.states_view().contains_key(k));
        }
    }
}

proof fn lemma_window_bounded(s: Seq<ChatMessage>, now: Timestamp, span: int)
    ensures
        latest(young(s, now, span)).len() <= MAX_WINDOW_SIZE,
{
}

proof fn lemma_window_dated(s: Seq<ChatMessage>, now: Timestamp, span: int)
    requires
        dated(s),
    ensures
        dated(latest(young(s, now, span))),
{
    let p = |m: ChatMessage| now.total() - m.timestamp.total() < span;
    let kept = young(s, now, span);
    assert forall|i: int| 0 <= i < kept.len() implies (#[trigger] kept[i]).timestamp.valid() by {
        s.lemma_filter_contains_rev(p, kept[i]);
    }
}

/// A burst is a conversation that is fast enough, by enough people: its rate is
/// not below what was set, its average gap not above, its senders are as many as
/// asked for; and the group is told, with the time and the messages. None is given
/// where bursts are not looked for.
pub proof fn law_burst_is_heated<F: Fn(Calc) -> Single>(
    f: F,
    before: SensoryActor,
    msg: ChatMessage,
    now: Timestamp,
    after: SensoryActor,
    burst: TopicBurst,
)
    requires
        burst_taken(f, before, msg, now, after, Some(burst)),
    ensures
        before.settings().burst_detection_enabled,
        !burst.score.messages_per_minute.below(before.settings().burst_threshold_mpm),
        !before.settings().burst_threshold_gap_sec.below(burst.score.avg_gap_seconds),
        burst.score.unique_participants >= before.settings().burst_threshold_participants,
        burst.messages@.len() >= before.settings().burst_threshold_participants,
        burst.messages@.len() >= 2,
        burst.score.coherence is None,
        burst.group_id@ == msg.group_id@,
        burst.detected_at == now,
        before.bursts().contains_key(msg.group_id@) && before.settings().burst_cooldown_sec
            <= i64::MAX ==> now.total() - before.bursts()[msg.group_id@].total()
            > before.settings().burst_cooldown_sec * 1_000_000_000,
{
    lemma_participants_bound(burst.messages@);
}

proof fn lemma_participants_bound(w: Seq<ChatMessage>)
    ensures
        participants(w) <= w.len(),
{
    senders(w).lemma_cardinality_of_set();
}

/// The number of senders of a burst counts people, not messages: `who` points at
/// one message of each, no two of them by the same sender, and every message is by
/// one of these senders.
pub proof fn law_senders_are_counted_once<F: Fn(Calc) -> Single>(
    f: F,
    before: SensoryActor,
    msg: ChatMessage,
    now: Timestamp,
    after: SensoryActor,
    burst: TopicBurst,
) -> (who: Seq<int>)
    requires
        before.wf(),
        burst_taken(f, before, msg, now, after, Some(burst)),
    ensures
        who.len() == burst.score.unique_participants,
        forall|i: int| 0 <= i < who.len() ==> 0 <= #[trigger] who[i] < burst.messages@.len(),
        forall|i: int, j: int|
            0 <= i < j < who.len() ==> burst.messages@[#[trigger] who[i]].sender@
                != burst.messages@[#[trigger] who[j]].sender@,
        forall|m: int|
            0 <= m < burst.messages@.len() ==> exists|i: int|
                0 <= i < who.len() && burst.messages@[#[trigger] who[i]].sender@ == (
                #[trigger] burst.messages@[m]).sender@,
{
    let w = burst.messages@;
    lemma_participants_bound(w);
    assert(w.len() <= MAX_WINDOW_SIZE);
    let a = senders(w);
    let who = lemma_pick_each(a);
    assert(forall|m: int| 0 <= m < w.len() ==> #[trigger] a[m] == w[m].sender@);
    assert forall|m: int| 0 <= m < w.len() implies exists|i: int|
        0 <= i < who.len() && w[#[trigger] who[i]].sender@ == (#[trigger] w[m]).sender@ by {
        let i = choose|i: int| 0 <= i < who.len() && a[#[trigger] who[i]] == a[m];
        assert(w[who[i]].sender@ == w[m].sender@);
    }
    who
}

proof fn lemma_pick_each(a: Seq<Seq<char>>) -> (who: Seq<int>)
    ensures
        who.len() == a.to_set().len(),
        forall|i: int| 0 <= i < who.len() ==> 0 <= #[trigger] who[i] < a.len(),
        forall|i: int, j: int|
            0 <= i < j < who.len() ==> a[#[trigger] who[i]] != a[#[trigger] who[j]],
        forall|m: int|
            0 <= m < a.len() ==> exists|i: int|
                0 <= i < who.len() && a[#[trigger] who[i]] == #[trigger] a[m],
    decreases a.len(),
{
    if a.len() == 0 {
        assert(a.to_set() =~= Set::empty());
        Seq::empty()
    } else {
        let b = a.drop_last();
        let x = a.last();
        let n = a.len() - 1;
        let earlier = lemma_pick_each(b);
        assert(b.push(x) =~= a);
        b.lemma_push_to_set_commute(x);
        vstd::seq_lib::seq_to_set_is_finite(b);
        let known = b.contains(x);
        let who = if known {
            earlier
        } else {
            earlier.push(n)
        };
        assert(known ==> b.to_set().insert(x) =~= b.to_set());
        assert(forall|i: int| 0 <= i < earlier.len() ==> who[i] == #[trigger] earlier[i]);
        assert(forall|k: int| 0 <= k < n ==> #[trigger] b[k] == a[k]);
        assert forall|i: int, j: int| 0 <= i < j < who.len() implies a[#[trigger] who[i]]
            != a[#[trigger] who[j]] by {
            assert(a[who[i]] == b[earlier[i]]);
            if j < earlier.len() {
                assert(a[who[j]] == b[earlier[j]]);
            }
        }
        assert forall|m: int| 0 <= m < a.len() implies exists|i: int|
            0 <= i < who.len() && a[#[trigger] who[i]] == #[trigger] a[m] by {
            let k = if m == n && known {
                choose|k: int| 0 <= k < b.len() && b[k] == x
            } else {
                m
            };
            if k < n {
                assert(b[k] == a[m]);
                let i = choose|i: int| 0 <= i < earlier.len() && b[#[trigger] earlier[i]] == b[k];
                assert(a[who[i]] == a[m]);
            } else {
                assert(a[who[earlier.len() as int]] == a[m]);
            }
        }
        who
    }
}

/// The window of a group after a message: `at` are the places, in what was there
/// with the message behind it, of the messages that are kept. They keep their
/// order and are all younger than the window is long; a message that is young
/// enough is left out only to make room, for 256 that came later. Other groups
/// keep theirs.
pub proof fn law_window_slides<F: Fn(Calc) -> Single>(
    f: F,
    before: SensoryActor,
    msg: ChatMessage,
    now: Timestamp,
    after: SensoryActor,
    res: Option<TopicBurst>,
    all: Seq<ChatMessage>,
) -> (at: Seq<int>)
    requires
        burst_taken(f, before, msg, now, after, res),
        before.settings().burst_detection_enabled,
        before.settings().burst_window_sec <= 9_223_372_036_854_775,
        all == (if before.windows().contains_key(msg.group_id@) {
            before.windows()[msg.group_id@].push(msg)
        } else {
            seq![msg]
        }),
    ensures
        after.windows().contains_key(msg.group_id@),
        at.len() == after.windows()[msg.group_id@].len() <= 256,
        forall|i: int|
            0 <= i < at.len() ==> {
                &&& 0 <= #[trigger] at[i] < all.len()
                &&& after.windows()[msg.group_id@][i] == all[at[i]]
                &&& now.total() - all[at[i]].timestamp.total() < before.settings().burst_window_sec
                    * 1_000_000_000
            },
        forall|i: int, j: int| 0 <= i < j < at.len() ==> #[trigger] at[i] < #[trigger] at[j],
        forall|p: int|
            0 <= p < all.len() && now.total() - (#[trigger] all[p]).timestamp.total()
                < before.settings().burst_window_sec * 1_000_000_000 ==> at.contains(p) || (
            at.len() == 256 && p < at[0]),
        res matches Some(b) ==> b.messages@ == after.windows()[msg.group_id@],
        forall|g: Seq<char>|
            g != msg.group_id@ ==> (#[trigger] after.windows().contains_key(g)
                <==> before.windows().contains_key(g)) && (before.windows().contains_key(g)
                ==> after.windows()[g] == before.windows()[g]),
{
    let span = before.settings().burst_window_sec * 1_000_000_000;
    let p = |m: ChatMessage| now.total() - m.timestamp.total() < before.settings().window_span();
    assert(window_of(before.windows(), msg.group_id@).push(msg) =~= all);
    let kept = all.filter(p);
    let places = lemma_filter_places(all, p);
    let w = after.windows()[msg.group_id@];
    assert(w == latest(kept));
    let drop = kept.len() - w.len();
    let at = places.skip(drop);
    assert forall|i: int| 0 <= i < at.len() implies {
        &&& 0 <= #[trigger] at[i] < all.len()
        &&& w[i] == all[at[i]]
        &&& now.total() - all[at[i]].timestamp.total() < span
    } by {
        assert(at[i] == places[i + drop]);
        assert(w[i] == kept[i + drop]);
        assert(p(all[places[i + drop]]));
    }
    assert forall|i: int, j: int| 0 <= i < j < at.len() implies #[trigger] at[i]
        < #[trigger] at[j] by {
        assert(places[i + drop] < places[j + drop]);
    }
    assert forall|q: int|
        0 <= q < all.len() && now.total() - (#[trigger] all[q]).timestamp.total()
            < span implies at.contains(q) || (at.len() == 256 && q < at[0]) by {
        assert(p(all[q]));
        let i = choose|i: int| 0 <= i < places.len() && #[trigger] places[i] == q;
        if i >= drop {
            assert(at[i - drop] == q);
        } else {
            assert(at[0] == places[drop]);
        }
    }
    at
}

proof fn lemma_filter_places(s: Seq<ChatMessage>, p: spec_fn(ChatMessage) -> bool) -> (at: Seq<int>)
    ensures
        at.len() == s.filter(p).len(),
        forall|i: int|
            0 <= i < at.len() ==> {
                &&& 0 <= #[trigger] at[i] < s.len()
                &&& s.filter(p)[i] == s[at[i]]
                &&& p(s[at[i]])
            },
        forall|i: int, j: int| 0 <= i < j < at.len() ==> #[trigger] at[i] < #[trigger] at[j],
        forall|q: int|
            0 <= q < s.len() && p(#[trigger] s[q]) ==> exists|i: int|
                0 <= i < at.len() && #[trigger] at[i] == q,
    decreases s.len(),
{
    reveal(Seq::filter);
    if s.len() == 0 {
        Seq::empty()
    } else {
        let shorter = s.drop_last();
        let before = lemma_filter_places(shorter, p);
        let n = s.len() - 1;
        let at = if p(s.last()) {
            before.push(n)
        } else {
            before
        };
        assert forall|i: int| 0 <= i < at.len() implies {
            &&& 0 <= #[trigger] at[i] < s.len()
            &&& s.filter(p)[i] == s[at[i]]
            &&& p(s[at[i]])
        } by {
            if i < before.len() {
                assert(at[i] == before[i]);
                assert(shorter[before[i]] == s[before[i]]);
            }
        }
        assert forall|i: int, j: int| 0 <= i < j < at.len() implies #[trigger] at[i]
            < #[trigger] at[j] by {
            assert(at[i] == before[i]);
            if j < before.len() {
                assert(at[j] == before[j]);
            }
        }
        assert forall|q: int| 0 <= q < s.len() && p(#[trigger] s[q]) implies exists|i: int|
            0 <= i < at.len() && #[trigger] at[i] == q by {
            if q < n {
                assert(shorter[q] == s[q]);
                let i = choose|i: int| 0 <= i < before.len() && #[trigger] before[i] == q;
                assert(at[i] == q);
            } else {
                assert(at[before.len() as int] == q);
            }
        }
        at
    }
}

/// The rate of a burst is its messages divided by the minutes between the first
/// and the last, in whole seconds and one at the least: where the arithmetic gives
/// these steps one answer each, the last is the rate.
pub proof fn law_rate_is_messages_per_minute<F: Fn(Calc) -> Single>(
    f: F,
    before: SensoryActor,
    msg: ChatMessage,
    now: Timestamp,
    after: SensoryActor,
    burst: TopicBurst,
    elapsed: i64,
    secs: Single,
    minutes: Single,
    count: Single,
    rate: Single,
)
    requires
        burst_taken(f, before, msg, now, after, Some(burst)),
        ({
            let span = burst.messages@.last().timestamp.total()
                - burst.messages@[0].timestamp.total();
            ||| elapsed == 1 && span < 2_000_000_000
            ||| elapsed >= 1 && elapsed * 1_000_000_000 <= span < (elapsed + 1) * 1_000_000_000
        }),
        answers_only(f, Calc::OfInt(elapsed), secs),
        answers_only(f, Calc::Div(secs, Single { bits: 0x4270_0000 }), minutes),
        answers_only(f, Calc::OfInt(burst.messages@.len() as i64), count),
        answers_only(f, Calc::Div(count, minutes), rate),
    ensures
        burst.score.messages_per_minute == rate,
{
    let w = burst.messages@;
    lemma_truncated(w.last().timestamp.total() - w[0].timestamp.total(), 1_000_000_000);
    assert(elapsed_seconds(w) == elapsed);
}

proof fn lemma_truncated(nanos: int, unit: int)
    requires
        unit == 1_000_000_000 || unit == 1_000_000,
    ensures
        nanos >= 0 ==> truncated(nanos, unit) * unit <= nanos < (truncated(nanos, unit) + 1) * unit,
        nanos < 0 ==> truncated(nanos, unit) <= 0,
{
}

/// The gap of a burst is the average of the gaps between neighbours, each in whole
/// milliseconds, none below zero: where the arithmetic gives the steps one answer
/// each, the last is the gap.
pub proof fn law_gap_is_average<F: Fn(Calc) -> Single>(
    f: F,
    before: SensoryActor,
    msg: ChatMessage,
    now: Timestamp,
    after: SensoryActor,
    burst: TopicBurst,
    millis: Seq<i64>,
    as_single: Seq<Single>,
    gaps: Seq<Single>,
    sums: Seq<Single>,
    count: Single,
    average: Single,
)
    requires
        burst_taken(f, before, msg, now, after, Some(burst)),
        millis.len() == burst.messages@.len() - 1,
        as_single.len() == millis.len(),
        gaps.len() == millis.len(),
        sums.len() == millis.len() + 1,
        forall|i: int|
            0 <= i < millis.len() ==> ({
                let span = burst.messages@[i + 1].timestamp.total()
                    - burst.messages@[i].timestamp.total();
                ||| (#[trigger] millis[i]) == 0 && span < 1_000_000
                ||| millis[i] >= 0 && millis[i] * 1_000_000 <= span < (millis[i] + 1) * 1_000_000
            }),
        forall|i: int|
            0 <= i < millis.len() ==> answers_only(
                f,
                Calc::OfInt(#[trigger] millis[i]),
                as_single[i],
            ),
        forall|i: int|
            0 <= i < gaps.len() ==> answers_only(
                f,
                Calc::Div(as_single[i], Single { bits: 0x447a_0000 }),
                #[trigger] gaps[i],
            ),
        sums[0].bits == 0,
        forall|i: int|
            0 <= i < gaps.len() ==> answers_only(
                f,
                Calc::Add(sums[i], #[trigger] gaps[i]),
                sums[i + 1],
            ),
        answers_only(f, Calc::OfInt(gaps.len() as i64), count),
        answers_only(f, Calc::Div(sums.last(), count), average),
    ensures
        burst.score.avg_gap_seconds == average,
{
    let w = burst.messages@;
    let gap = burst.score.avg_gap_seconds;
    assert(average_gives(f, w, gap));
    let (got, sum, n) = choose|got: Seq<Single>, sum: Single, n: Single|
        #![trigger sum_gives(f, got, sum), gives(f, Calc::Div(sum, n), gap)]
        {
            &&& got.len() == w.len() - 1
            &&& forall|i: int|
                0 <= i < got.len() ==> gap_gives(f, w[i], w[i + 1], #[trigger] got[i])
            &&& sum_gives(f, got, sum)
            &&& gives(f, Calc::OfInt(got.len() as i64), n)
            &&& gives(f, Calc::Div(sum, n), gap)
        };
    assert forall|i: int| 0 <= i < got.len() implies got[i] == gaps[i] by {
        assert(gap_gives(f, w[i], w[i + 1], got[i]));
        lemma_truncated(w[i + 1].timestamp.total() - w[i].timestamp.total(), 1_000_000);
        assert(gap_millis(w[i], w[i + 1]) == millis[i]);
        assert(answers_only(f, Calc::OfInt(millis[i]), as_single[i]));
        assert(answers_only(
            f,
            Calc::Div(as_single[i], Single { bits: 0x447a_0000 }),
            gaps[i],
        ));
    }
    assert(got =~= gaps);
    law_sum_is_step_by_step(f, gaps, sums, sum);
}

/// A conversation that is fast enough, by enough people, is noticed: where bursts
/// are looked for, the last one of the group lies further back than the cooldown,
/// `who` points at messages of the window by as many senders as are asked for, and
/// neither the rate nor the gap that the arithmetic gives is on the wrong side of
/// its threshold, a burst is given.
pub proof fn law_heated_conversation_is_noticed<F: Fn(Calc) -> Single>(
    f: F,
    before: SensoryActor,
    msg: ChatMessage,
    now: Timestamp,
    after: SensoryActor,
    res: Option<TopicBurst>,
    w: Seq<ChatMessage>,
    who: Seq<int>,
)
    requires
        burst_taken(f, before, msg, now, after, res),
        before.settings().burst_detection_enabled,
        before.settings().burst_cooldown_sec <= i64::MAX,
        before.bursts().contains_key(msg.group_id@) ==> now.total()
            - before.bursts()[msg.group_id@].total() > before.settings().burst_cooldown_sec
            * 1_000_000_000,
        w == after.windows()[msg.group_id@],
        w.len() >= 2,
        who.len() >= before.settings().burst_threshold_participants,
        forall|i: int| 0 <= i < who.len() ==> 0 <= #[trigger] who[i] < w.len(),
        forall|i: int, j: int|
            0 <= i < j < who.len() ==> w[#[trigger] who[i]].sender@ != w[#[trigger] who[j]].sender@,
        forall|r: Single| #[trigger]
            rate_gives(f, w, r) ==> !r.below(before.settings().burst_threshold_mpm),
        forall|g: Single| #[trigger]
            average_gives(f, w, g) ==> !before.settings().burst_threshold_gap_sec.below(g),
    ensures
        res is Some,
{
    let names = senders(w);
    let picked = Seq::new(who.len(), |i: int| names[who[i]]);
    assert(picked.no_duplicates()) by {
        assert forall|i: int, j: int|
            0 <= i < picked.len() && 0 <= j < picked.len() && i != j implies picked[i]
            != picked[j] by {
            if i < j {
                assert(w[who[i]].sender@ != w[who[j]].sender@);
            } else {
                assert(w[who[j]].sender@ != w[who[i]].sender@);
            }
        }
    }
    picked.unique_seq_to_set();
    vstd::seq_lib::seq_to_set_is_finite(names);
    assert(picked.to_set().subset_of(names.to_set())) by {
        assert forall|x: Seq<char>| picked.to_set().contains(x) implies names.to_set().contains(x) by {
            let i = choose|i: int| 0 <= i < picked.len() && picked[i] == x;
            assert(names[who[i]] == x);
        }
    }
    vstd::set_lib::lemma_len_subset(picked.to_set(), names.to_set());
    lemma_participants_bound(w);
    assert(crowded(before.settings(), w));
}

/// A burst is marked for its group, with the time; where there is none, and for
/// every other group, the marks stay.
pub proof fn law_bursts_are_marked<F: Fn(Calc) -> Single>(
    f: F,
    before: SensoryActor,
    msg: ChatMessage,
    now: Timestamp,
    after: SensoryActor,
    res: Option<TopicBurst>,
)
    requires
        burst_taken(f, before, msg, now, after, res),
    ensures
        res is Some ==> after.bursts().contains_pair(msg.group_id@, now),
        res is None ==> after.bursts() == before.bursts(),
        forall|g: Seq<char>|
            g != msg.group_id@ ==> (#[trigger] after.bursts().contains_key(g)
                <==> before.bursts().contains_key(g)) && (before.bursts().contains_key(g)
                ==> after.bursts()[g] == before.bursts()[g]),
{
}

/// The first message of a user raises their energy by two hundredths, up to one,
/// and leaves the rest.
pub proof fn law_first_message_raises_energy<F: Fn(Calc) -> Single>(
    f: F,
    c: SensoryConfig,
    before: AffectiveState,
    now: Timestamp,
    after: AffectiveState,
    e: Single,
)
    requires
        touched(f, c, before, now, after),
        before.last_updated is None,
        answers_only(f, Calc::Add(before.energy, Single { bits: 0x3ca3_d70a }), e),
        !e.nan(),
    ensures
        after.energy == if (Single { bits: 0x3f80_0000 }).below(e) {
            Single { bits: 0x3f80_0000 }
        } else {
            e
        },
        after.favorability == before.favorability,
        after.reply_count == before.reply_count,
        after.last_updated == Some(now),
{
}

/// A later message first takes from the energy and the favorability of its sender
/// what the time since the last one costs, the whole seconds of it in minutes times
/// the rate of each, and then raises the energy by two hundredths, up to one.
pub proof fn law_later_message_decays_then_raises<F: Fn(Calc) -> Single>(
    f: F,
    c: SensoryConfig,
    before: AffectiveState,
    last: Timestamp,
    now: Timestamp,
    after: AffectiveState,
    elapsed: i64,
    secs: Single,
    minutes: Single,
    loss: Single,
    left: Single,
    e: Single,
)
    requires
        touched(f, c, before, now, after),
        before.last_updated == Some(last),
        elapsed >= 0,
        elapsed * 1_000_000_000 <= now.total() - last.total() < (elapsed + 1) * 1_000_000_000,
        answers_only(f, Calc::OfInt(elapsed), secs),
        answers_only(f, Calc::Div(secs, Single { bits: 0x4270_0000 }), minutes),
        answers_only(f, Calc::Mul(minutes, c.energy_decay_per_min), loss),
        answers_only(f, Calc::Sub(before.energy, loss), left),
        !left.nan(),
        answers_only(
            f,
            Calc::Add(
                if left.below(Single { bits: 0 }) {
                    Single { bits: 0 }
                } else {
                    left
                },
                Single { bits: 0x3ca3_d70a },
            ),
            e,
        ),
        !e.nan(),
    ensures
        after.energy == if (Single { bits: 0x3f80_0000 }).below(e) {
            Single { bits: 0x3f80_0000 }
        } else {
            e
        },
        exists|mid: AffectiveState| #[trigger]
            decayed(f, before, minutes, c.energy_decay_per_min, c.favor_decay_per_min, mid)
                && after.favorability == mid.favorability,
        after.reply_count == before.reply_count,
        after.last_updated == Some(now),
{
    lemma_truncated(now.total() - last.total(), 1_000_000_000);
    assert(truncated(now.total() - last.total(), 1_000_000_000) == elapsed);
}

/// The buffer is to be written out exactly where the message fills it.
pub proof fn law_full_buffer_is_written<F: Fn(Calc) -> Single>(
    f: F,
    before: SensoryActor,
    msg: ChatMessage,
    after: SensoryActor,
    flush: bool,
    message: ChatMessage,
    state: AffectiveState,
    burst: Option<TopicBurst>,
)
    requires
        message_handled(
            f,
            before,
            msg,
            after,
            SensoryEffect::Forward { message, state, flush, burst },
        ),
    ensures
        flush <==> before.buffered().len() + 1 >= before.settings().batch_size,
        message == msg,
{
}

/// A memory of ids that is full is emptied by the next message, which is then taken
/// in whatever its id is.
pub proof fn law_full_memory_is_emptied<F: Fn(Calc) -> Single>(
    f: F,
    before: SensoryActor,
    msg: ChatMessage,
    after: SensoryActor,
    res: SensoryEffect,
)
    requires
        message_handled(f, before, msg, after, res),
        before.seen().len() >= before.settings().max_recent_messages,
    ensures
        res is Forward,
        forall|id: MessageId| #[trigger] after.seen().contains(id) <==> id == msg.id,
{
}

/// A message that is taken in changes the state of its sender in its group, and of
/// nobody else.
pub proof fn law_message_touches_its_sender<F: Fn(Calc) -> Single>(
    f: F,
    before: SensoryActor,
    msg: ChatMessage,
    after: SensoryActor,
    res: SensoryEffect,
    k: (Seq<char>, Seq<char>),
)
    requires
        message_handled(f, before, msg, after, res),
        k != (msg.group_id@, msg.sender@),
    ensures
        after.states_view().contains_key(k) <==> before.states_view().contains_key(k),
        before.states_view().contains_key(k) ==> after.states_view()[k] == before.states_view()[k],
        res is Forward ==> after.states_view().contains_key((msg.group_id@, msg.sender@)),
{
}

/// A reply raises the favorability of the user it went to by a twentieth and their
/// energy by a tenth, where nothing is known of them yet as well.
pub proof fn law_reply_raises_favor<F: Fn(Calc) -> Single>(
    f: F,
    before: SensoryActor,
    reply: ReplyOut,
    now: Timestamp,
    after: SensoryActor,
    was: AffectiveState,
    e: Single,
    q: Single,
)
    requires
        reply_taken(f, before, reply, now, after, true),
        was == (if before.states_view().contains_key((reply.group_id@, reply.target_user@)) {
            before.states_view()[(reply.group_id@, reply.target_user@)]
        } else {
            blank_state()
        }),
        answers_only(f, Calc::Add(was.energy, Single { bits: 0x3dcc_cccd }), e),
        answers_only(f, Calc::Add(was.favorability, Single { bits: 0x3d4c_cccd }), q),
        !e.nan() && !(Single { bits: 0x3f80_0000 }).below(e),
        !q.nan() && !(Single { bits: 0x3f80_0000 }).below(q) && !q.below(
            Single { bits: 0xbf80_0000 },
        ),
    ensures
        ({
            let s = after.states_view()[(reply.group_id@, reply.target_user@)];
            s.energy == e && s.favorability == q && s.last_updated == Some(now)
        }),
{
}

/// Every message that was taken in since the last time is written out, in the order
/// in which they came, each with its id; none is written twice.
pub proof fn law_buffer_is_written_once<F: Fn(Calc) -> Single>(
    f: F,
    first: SensoryActor,
    msg: ChatMessage,
    second: SensoryActor,
    res: SensoryEffect,
    third: SensoryActor,
    batch: Seq<ChatMessage>,
    ids: Seq<MessageId>,
    fourth: SensoryActor,
    again: Seq<ChatMessage>,
    no_ids: Seq<MessageId>,
)
    requires
        message_handled(f, first, msg, second, res),
        res is Forward,
        written_out(second, third, batch, ids),
        written_out(third, fourth, again, no_ids),
    ensures
        batch.len() == first.buffered().len() + 1,
        batch.last() == msg,
        forall|i: int| 0 <= i < first.buffered().len() ==> #[trigger] batch[i]
            == first.buffered()[i],
        ids.len() == batch.len(),
        forall|i: int| 0 <= i < ids.len() ==> #[trigger] ids[i] == batch[i].id,
        again.len() == 0,
        third.states_view() == second.states_view(),
        third.seen() == second.seen(),
{
}

/// A state that was stored is the state of its user again, unless a later one of the
/// same user is; users of whom nothing was stored keep theirs.
pub proof fn law_stored_states_are_taken_up(
    before: SensoryActor,
    stored: Seq<(GroupId, UserId, AffectiveState)>,
    after: SensoryActor,
    at: int,
    k: (Seq<char>, Seq<char>),
)
    requires
        taken_up(before, stored, after),
        0 <= at < stored.len(),
        forall|j: int|
            at < j < stored.len() ==> ((#[trigger] stored[j]).0@, stored[j].1@) != (
                stored[at].0@,
                stored[at].1@,
            ),
        forall|j: int| 0 <= j < stored.len() ==> ((#[trigger] stored[j]).0@, stored[j].1@) != k,
    ensures
        after.states_view().contains_pair((stored[at].0@, stored[at].1@), stored[at].2),
        after.states_view().contains_key(k) <==> before.states_view().contains_key(k),
        before.states_view().contains_key(k) ==> after.states_view()[k] == before.states_view()[k],
        after.buffered() == before.buffered(),
{
    lemma_restored_last(before.states_view(), stored, at);
    lemma_restored_other(before.states_view(), stored, k);
}

proof fn lemma_restored_last(
    m: Map<(Seq<char>, Seq<char>), AffectiveState>,
    list: Seq<(GroupId, UserId, AffectiveState)>,
    at: int,
)
    requires
        0 <= at < list.len(),
        forall|j: int|
            at < j < list.len() ==> ((#[trigger] list[j]).0@, list[j].1@) != (
                list[at].0@,
                list[at].1@,
            ),
    ensures
        restored(m, list).contains_pair((list[at].0@, list[at].1@), list[at].2),
    decreases list.len(),
{
    if at < list.len() - 1 {
        let shorter = list.drop_last();
        assert((list[list.len() - 1].0@, list[list.len() - 1].1@) != (list[at].0@, list[at].1@));
        assert(shorter[at] == list[at]);
        assert forall|j: int| at < j < shorter.len() implies ((#[trigger] shorter[j]).0@,
            shorter[j].1@) != (shorter[at].0@, shorter[at].1@) by {
            assert(shorter[j] == list[j]);
        }
        lemma_restored_last(m, shorter, at);
    }
}

proof fn lemma_restored_other(
    m: Map<(Seq<char>, Seq<char>), AffectiveState>,
    list: Seq<(GroupId, UserId, AffectiveState)>,
    k: (Seq<char>, Seq<char>),
)
    requires
        forall|j: int| 0 <= j < list.len() ==> ((#[trigger] list[j]).0@, list[j].1@) != k,
    ensures
        restored(m, list).contains_key(k) <==> m.contains_key(k),
        m.contains_key(k) ==> restored(m, list)[k] == m[k],
    decreases list.len(),
{
    if list.len() > 0 {
        let shorter = list.drop_last();
        assert((list[list.len() - 1].0@, list[list.len() - 1].1@) != k);
        assert forall|j: int| 0 <= j < shorter.len() implies ((#[trigger] shorter[j]).0@,
            shorter[j].1@) != k by {
            assert(shorter[j] == list[j]);
        }
        lemma_restored_other(m, shorter, k);
    }
}

} // verus!
