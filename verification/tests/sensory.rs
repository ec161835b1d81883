use neko_router::clock::Timestamp;
use neko_router::cooldown::ReplyCooldown;
use neko_router::json::Json;
use neko_router::sensory::{
    forwarded, SensoryActor, SensoryConfig, SensoryEffect, MAX_WINDOW_SIZE,
};
use neko_router::single::{Calc, Single};
use neko_router::types::{AffectiveState, ChatMessage, Event, ReplyOut, TopicBurst};

fn single(x: f32) -> Single {
    Single { bits: x.to_bits() }
}

fn value(x: Single) -> f32 {
    f32::from_bits(x.bits)
}

fn calc(c: Calc) -> Single {
    match c {
        Calc::Add(a, b) => single(value(a) + value(b)),
        Calc::Sub(a, b) => single(value(a) - value(b)),
        Calc::Mul(a, b) => single(value(a) * value(b)),
        Calc::Div(a, b) => single(value(a) / value(b)),
        Calc::OfInt(n) => single(n as f32),
    }
}

fn later(t: Timestamp, secs: i64) -> Timestamp {
    Timestamp { secs: t.secs + secs, nanos: t.nanos }
}

fn make_message(group: &str, sender: &str, content: &str, ts: Timestamp) -> ChatMessage {
    ChatMessage {
        id: uuid::Uuid::new_v4().as_u128(),
        trace_id: uuid::Uuid::new_v4().as_u128(),
        group_id: group.to_string(),
        sender: sender.to_string(),
        nickname: sender.to_string(),
        content: content.to_string(),
        timestamp: ts,
        reply_to: None,
        raw_payload: Json::Null,
    }
}

fn burst_config() -> SensoryConfig {
    SensoryConfig {
        batch_size: 100,
        flush_interval_ms: 10000,
        energy_decay_per_min: single(0.05),
        favor_decay_per_min: single(0.02),
        max_recent_messages: 1024,
        burst_detection_enabled: true,
        burst_window_sec: 60,
        burst_threshold_mpm: single(6.0),
        burst_threshold_participants: 3,
        burst_threshold_gap_sec: single(30.0),
        burst_cooldown_sec: 120,
    }
}

fn reply_to(group: &str, user: &str) -> ReplyOut {
    ReplyOut {
        id: 1,
        reply_to: 2,
        reply_to_platform: None,
        group_id: group.to_string(),
        target_user: user.to_string(),
        content: "x".to_string(),
        layer: "council".to_string(),
        trace_id: 3,
    }
}

#[test]
fn defaults_are_the_documented_ones() {
    let c = SensoryConfig::default();
    assert_eq!(c.batch_size, 50);
    assert_eq!(c.flush_interval_ms, 5000);
    assert_eq!(value(c.energy_decay_per_min), 0.05);
    assert_eq!(value(c.favor_decay_per_min), 0.02);
    assert_eq!(value(c.burst_threshold_mpm), 6.0);
    assert_eq!(value(c.burst_threshold_gap_sec), 30.0);
    assert_eq!(c.burst_threshold_participants, 3);
    assert_eq!(c.burst_window_sec, 60);
    assert_eq!(c.burst_cooldown_sec, 120);
    assert_eq!(c.max_recent_messages, 1024);
    assert!(c.burst_detection_enabled);
    assert!(c.is_valid());
}

#[test]
fn cooldown_must_fit_a_span() {
    let mut c = burst_config();
    c.burst_cooldown_sec = 9_223_372_036_854_775;
    assert!(c.is_valid());
    c.burst_cooldown_sec += 1;
    assert!(!c.is_valid());
    c.burst_cooldown_sec = u64::MAX;
    assert!(c.is_valid());
    c.burst_cooldown_sec = 9_223_372_036_854_776;
    c.burst_detection_enabled = false;
    assert!(c.is_valid());
}

#[test]
fn detects_topic_burst_when_many_users_chat_quickly() {
    let mut cfg = burst_config();
    cfg.burst_cooldown_sec = 0;
    let mut actor = SensoryActor::new(cfg);

    let base = Timestamp::now();
    let group = "g1";
    let mut triggered = 0usize;
    for i in 0..6 {
        let sender = match i % 3 {
            0 => "u1",
            1 => "u2",
            _ => "u3",
        };
        let msg = make_message(group, sender, &format!("msg{i}"), later(base, i));
        if let Some(burst) = actor.detect_burst(&msg, &calc) {
            triggered += 1;
            assert_eq!(burst.group_id, group);
            assert!(burst.score.unique_participants >= 3);
            assert!(value(burst.score.messages_per_minute) >= 6.0);
        }
    }
    assert!(triggered > 0, "topic burst should trigger at least once");
}

#[test]
fn no_burst_when_only_one_user_talks() {
    let mut actor = SensoryActor::new(burst_config());
    let base = Timestamp::now();
    let group = "g1";
    for i in 0..10 {
        let msg = make_message(group, "u1", &format!("msg{i}"), later(base, i));
        assert!(actor.detect_burst(&msg, &calc).is_none());
    }
}

#[test]
fn burst_detection_can_be_disabled() {
    let mut cfg = burst_config();
    cfg.burst_detection_enabled = false;
    let mut actor = SensoryActor::new(cfg);
    let base = Timestamp::now();
    for i in 0..6 {
        let sender = match i % 3 {
            0 => "u1",
            1 => "u2",
            _ => "u3",
        };
        let msg = make_message("g1", sender, &format!("msg{i}"), later(base, i));
        assert!(actor.detect_burst(&msg, &calc).is_none());
    }
}

fn chat(actor: &mut SensoryActor, base: Timestamp, n: i64, now: Timestamp) -> Option<TopicBurst> {
    let mut last = None;
    for i in 0..n {
        let sender = format!("u{}", i % 3);
        let msg = make_message("g1", &sender, "hi", later(base, i));
        last = actor.detect_burst_at(&msg, now, &calc);
    }
    last
}

#[test]
fn score_is_exact() {
    let mut cfg = burst_config();
    cfg.burst_cooldown_sec = 0;
    let mut actor = SensoryActor::new(cfg);
    let base = Timestamp { secs: 1000, nanos: 0 };
    chat(&mut actor, base, 3, later(base, 2));
    let fourth = make_message("g1", "u0", "hi", later(base, 3));
    let burst = actor.detect_burst_at(&fourth, later(base, 3), &calc).unwrap();
    // Four messages in three seconds, one second apart.
    assert_eq!(value(burst.score.messages_per_minute), 4.0 / (3.0 / 60.0));
    assert_eq!(value(burst.score.avg_gap_seconds), 1.0);
    assert_eq!(burst.score.unique_participants, 3);
    assert_eq!(burst.score.coherence, None);
    assert_eq!(burst.messages.len(), 4);
    assert_eq!(burst.detected_at, later(base, 3));
}

#[test]
fn bursts_of_a_group_keep_their_distance() {
    let mut actor = SensoryActor::new(burst_config());
    let base = Timestamp { secs: 1000, nanos: 0 };
    assert!(chat(&mut actor, base, 3, later(base, 2)).is_some());
    assert!(chat(&mut actor, later(base, 3), 3, later(base, 5)).is_none());
    assert!(chat(&mut actor, later(base, 119), 3, later(base, 121)).is_none());
    let msg = make_message("g1", "u9", "hi", later(base, 122));
    assert!(actor.detect_burst_at(&msg, later(base, 122), &calc).is_none());
    let past = Timestamp { secs: base.secs + 122, nanos: 1 };
    assert!(actor.detect_burst_at(&msg, past, &calc).is_some());
}

#[test]
fn old_messages_leave_the_window() {
    let mut cfg = burst_config();
    cfg.burst_cooldown_sec = 0;
    let mut actor = SensoryActor::new(cfg);
    let base = Timestamp { secs: 1000, nanos: 0 };
    assert!(chat(&mut actor, base, 3, later(base, 2)).is_some());
    let msg = make_message("g1", "u9", "hi", later(base, 62));
    // Two earlier messages are a minute old or more by now.
    assert!(actor.detect_burst_at(&msg, later(base, 62), &calc).is_none());
}

#[test]
fn window_is_bounded() {
    let mut cfg = burst_config();
    cfg.burst_cooldown_sec = 0;
    let mut actor = SensoryActor::new(cfg);
    let base = Timestamp { secs: 1000, nanos: 0 };
    let mut last = None;
    for i in 0..300 {
        let sender = format!("u{}", i % 3);
        let msg = make_message("g1", &sender, "hi", base);
        last = actor.detect_burst_at(&msg, Timestamp { secs: 1000, nanos: i }, &calc);
    }
    assert_eq!(last.unwrap().messages.len(), MAX_WINDOW_SIZE);
}

#[test]
fn repeated_message_is_dropped() {
    let mut actor = SensoryActor::new(burst_config());
    let t = Timestamp::now();
    let msg = make_message("g1", "u1", "hi", t);
    let first = actor.handle_message_at(&msg, t, t, &calc);
    assert!(matches!(first, SensoryEffect::Forward { flush: false, burst: None, .. }));
    let again = actor.handle_event(&Event::IncomingMessage(msg.clone()), &calc);
    assert!(matches!(again, SensoryEffect::Nothing));
    let (batch, ids) = actor.take_batch();
    assert_eq!(batch, vec![msg.clone()]);
    assert_eq!(ids, vec![msg.id]);
    assert!(actor.take_batch().0.is_empty());
}

#[test]
fn repeats_are_dropped_whatever_came_between() {
    let mut actor = SensoryActor::new(burst_config());
    let t = Timestamp::now();
    let msg = make_message("g1", "u1", "hi", t);
    let SensoryEffect::Forward { message, state, .. } = actor.handle_message(&msg, &calc) else {
        panic!("not forwarded");
    };
    let events = forwarded(message, state);
    assert_eq!(events.len(), 2);
    assert!(matches!(&events[0], Event::IncomingMessage(m) if *m == msg));
    assert!(matches!(&events[1], Event::AffectiveUpdated(g, u, s)
        if g == "g1" && u == "u1" && s.energy == state.energy));
    assert!(actor.handle_reply(&reply_to("g1", "u1"), &calc));
    let other = make_message("g1", "u2", "ho", t);
    assert!(matches!(actor.handle_message(&other, &calc), SensoryEffect::Forward { .. }));
    assert!(matches!(actor.handle_message(&msg, &calc), SensoryEffect::Nothing));
    assert_eq!(actor.take_batch().1, vec![msg.id, other.id]);
}

#[test]
fn memory_of_ids_is_cleared_when_full() {
    let mut cfg = burst_config();
    cfg.max_recent_messages = 2;
    let mut actor = SensoryActor::new(cfg);
    let t = Timestamp::now();
    let a = make_message("g1", "u1", "a", t);
    let b = make_message("g1", "u1", "b", t);
    assert!(matches!(actor.handle_message_at(&a, t, t, &calc), SensoryEffect::Forward { .. }));
    assert!(matches!(actor.handle_message_at(&b, t, t, &calc), SensoryEffect::Forward { .. }));
    // Two ids are remembered, so the memory is emptied first.
    assert!(matches!(actor.handle_message_at(&a, t, t, &calc), SensoryEffect::Forward { .. }));
}

#[test]
fn batch_size_asks_for_a_flush() {
    let mut cfg = burst_config();
    cfg.batch_size = 2;
    let mut actor = SensoryActor::new(cfg);
    let t = Timestamp::now();
    let a = make_message("g1", "u1", "a", t);
    let b = make_message("g1", "u1", "b", t);
    assert!(matches!(actor.handle_message_at(&a, t, t, &calc), SensoryEffect::Forward { flush: false, .. }));
    assert!(matches!(actor.handle_message_at(&b, t, t, &calc), SensoryEffect::Forward { flush: true, .. }));
}

#[test]
fn touching_decays_and_raises() {
    let mut actor = SensoryActor::new(burst_config());
    let t = Timestamp { secs: 1000, nanos: 0 };
    actor.restore(vec![(
        "g1".to_string(),
        "u1".to_string(),
        AffectiveState {
            energy: single(0.5),
            favorability: single(0.5),
            reply_count: 7,
            last_updated: Some(t),
        },
    )]);
    let s = actor.touch_state_at(&"g1".to_string(), &"u1".to_string(), later(t, 90), &calc);
    let minutes: f32 = 90.0 / 60.0;
    assert_eq!(value(s.energy), (0.5f32 - minutes * 0.05) + 0.02);
    assert_eq!(value(s.favorability), 0.5f32 - minutes * 0.02);
    assert_eq!(s.reply_count, 7);
    assert_eq!(s.last_updated, Some(later(t, 90)));
    let fresh = actor.touch_state_at(&"g1".to_string(), &"u2".to_string(), t, &calc);
    assert_eq!(value(fresh.energy), 0.02);
}

#[test]
fn replies_are_counted_once_each() {
    let mut actor = SensoryActor::new(burst_config());
    let t = Timestamp::now();
    assert!(actor.handle_reply_at(&reply_to("g1", "u1"), t, &calc));
    assert!(matches!(actor.handle_event(&Event::ReplyOut(reply_to("g1", "u1")), &calc), SensoryEffect::Nothing));
    assert!(matches!(actor.handle_event(&Event::SolidifyTick, &calc), SensoryEffect::Nothing));
    let states = actor.states_to_persist();
    assert_eq!(states.len(), 1);
    assert_eq!(states[0].2.reply_count, 2);
    assert_eq!(value(states[0].2.favorability), 0.05 + 0.05);
}

#[test]
fn full_counter_stays() {
    let mut actor = SensoryActor::new(burst_config());
    let t = Timestamp::now();
    let full = AffectiveState { reply_count: u64::MAX, ..AffectiveState::default() };
    actor.restore(vec![("g1".to_string(), "u1".to_string(), full)]);
    assert!(!actor.handle_reply_at(&reply_to("g1", "u1"), t, &calc));
    assert_eq!(actor.states_to_persist()[0].2, full);
}

#[test]
fn states_survive_a_restart() {
    let mut first = SensoryActor::new(burst_config());
    let t = Timestamp::now();
    for u in ["u1", "u2", "u3"] {
        first.touch_state_at(&"g1".to_string(), &u.to_string(), t, &calc);
    }
    let mut second = SensoryActor::new(burst_config());
    second.restore(first.states_to_persist());
    let mut a = first.states_to_persist();
    let mut b = second.states_to_persist();
    a.sort_by(|x, y| x.1.cmp(&y.1));
    b.sort_by(|x, y| x.1.cmp(&y.1));
    assert_eq!(a.len(), 3);
    assert_eq!(a, b);
}

#[test]
fn zero_interval_always_allows() {
    let mut cd = ReplyCooldown::new(0);
    for _ in 0..10 {
        assert!(cd.allow(&"g1".to_string()));
    }
}

#[test]
fn blocks_replies_within_interval() {
    let mut cd = ReplyCooldown::new(100 * 1_000_000);
    let g = "g1".to_string();
    assert!(cd.allow(&g));
    assert!(!cd.allow(&g));
    // Different groups are independent.
    assert!(cd.allow(&"g2".to_string()));
}

#[test]
fn marks_of_an_earlier_run_count() {
    let t = Timestamp { secs: 1000, nanos: 0 };
    let g = "g1".to_string();
    let mut cd = ReplyCooldown::new_with_store(3_000_000_000, vec![(g.clone(), later(t, -9)), (g.clone(), t)]);
    assert!(!cd.allow_at(&g, later(t, 2)));
    assert!(!cd.allow_at(&g, later(t, 3)));
    assert!(cd.allow_at(&g, later(t, 4)));
    assert!(!cd.allow_at(&g, later(t, 4)));
    // A clock that was set back does not let replies through.
    assert!(!cd.allow_at(&g, later(t, 1)));
    let mut free = ReplyCooldown::new(0);
    assert!(free.allow_at(&g, t) && free.allow_at(&g, t) && free.allow_at(&g, later(t, -1)));
}
