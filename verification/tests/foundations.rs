use neko_router::clock::{span_millis, span_seconds, Timestamp, MAX_SECS, MIN_SECS};
use neko_router::error::{detailed, ErrorKind, NekoError};
use neko_router::json::{Json, JsonNumber};
use neko_router::number::{parse_i64, parse_u64, signed_to_text, unsigned_to_text, IntError};
use neko_router::secret::Secret;
use neko_router::single::{Calc, Single, HALF, MINUS_ONE, ONE, ZERO};
use neko_router::store::id_column;
use neko_router::table::Table;
use neko_router::text;
use neko_router::types::{AffectiveState, ChatMessage, REPLY_ENERGY};
use std::sync::Arc;

fn single(x: f32) -> Single {
    Single { bits: x.to_bits() }
}

fn value(x: Single) -> f32 {
    f32::from_bits(x.bits)
}

fn calc(c: Calc) -> Single {
    match c {
        Calc::Add(a, b) => single(value(a) + value(b)),
        Calc::Sub(a, b) => single(value(a) - value(b)),
        Calc::Mul(a, b) => single(value(a) * value(b)),
        Calc::Div(a, b) => single(value(a) / value(b)),
        Calc::OfInt(n) => single(n as f32),
    }
}

const SAMPLES: [f32; 14] = [
    0.0,
    -0.0,
    1.0,
    -1.0,
    0.5,
    -0.5,
    f32::MIN_POSITIVE,
    f32::MAX,
    f32::MIN,
    f32::INFINITY,
    f32::NEG_INFINITY,
    f32::NAN,
    0.92,
    -7.25,
];

#[test]
fn single_orders_like_the_hardware() {
    for a in SAMPLES {
        for b in SAMPLES {
            assert_eq!(single(a).lt(&single(b)), a < b, "{a} < {b}");
            assert_eq!(single(a).ge(&single(b)), a >= b, "{a} >= {b}");
        }
    }
}

#[test]
fn single_limits_like_the_hardware() {
    for a in SAMPLES {
        let got = value(single(a).clamp(single(-1.0), single(1.0)));
        let want = a.clamp(-1.0, 1.0);
        assert!(got == want || (got.is_nan() && want.is_nan()));
        assert_eq!(single(a).abs().bits, a.abs().to_bits());
        for b in SAMPLES {
            let low = value(single(a).min(single(b)));
            let high = value(single(a).max(single(b)));
            assert!(low == a.min(b) || (low.is_nan() && a.min(b).is_nan()));
            assert!(high == a.max(b) || (high.is_nan() && a.max(b).is_nan()));
        }
        let times = value(single(a).times_sign(single(0.25)));
        let want = a.signum() * 0.25;
        assert!(times == want || (times.is_nan() && want.is_nan()));
    }
}

#[test]
fn single_constants_are_what_they_say() {
    assert_eq!(f32::from_bits(ZERO), 0.0);
    assert_eq!(f32::from_bits(HALF), 0.5);
    assert_eq!(f32::from_bits(ONE), 1.0);
    assert_eq!(f32::from_bits(MINUS_ONE), -1.0);
    assert_eq!(f32::from_bits(REPLY_ENERGY), 0.1);
}

#[test]
fn reply_raises_energy_and_moves_favor() {
    let now = Timestamp::now();
    let mut s = AffectiveState::default();
    s.on_reply(single(0.05), now, &calc);
    assert_eq!(value(s.energy), 0.1);
    assert_eq!(value(s.favorability), 0.05);
    assert_eq!(s.reply_count, 1);
    assert_eq!(s.last_updated, Some(now));
    for _ in 0..40 {
        s.on_reply(single(0.05), now, &calc);
    }
    assert_eq!(value(s.energy), 1.0);
    assert_eq!(value(s.favorability), 1.0);
    s.on_reply(single(-9.0), now, &calc);
    assert_eq!(value(s.favorability), -1.0);
}

#[test]
fn shifts_stay_in_range() {
    let now = Timestamp::now();
    let mut s = AffectiveState::default();
    s.shift(single(0.25), single(-0.5), now, &calc);
    assert_eq!((value(s.energy), value(s.favorability)), (0.25, -0.5));
    assert_eq!(s.last_updated, Some(now));
    s.shift(single(-9.0), single(-9.0), now, &calc);
    assert_eq!((value(s.energy), value(s.favorability)), (0.0, -1.0));
    s.shift(single(9.0), single(9.0), now, &calc);
    assert_eq!((value(s.energy), value(s.favorability)), (1.0, 1.0));
    assert_eq!(s.reply_count, 0);
}

#[test]
fn decay_shrinks_toward_zero() {
    let mut s = AffectiveState {
        energy: single(0.5),
        favorability: single(-0.5),
        reply_count: 3,
        last_updated: None,
    };
    s.decay(single(2.0), single(0.05), single(0.02), &calc);
    assert_eq!(value(s.energy), 0.5 - 2.0 * 0.05);
    assert_eq!(value(s.favorability), -(0.5 - 2.0 * 0.02));
    s.decay(single(1000.0), single(0.05), single(0.02), &calc);
    assert_eq!(value(s.energy), 0.0);
    assert_eq!(value(s.favorability), 0.0);
    assert_eq!(s.reply_count, 3);
}

#[test]
fn white_space_is_that_of_unicode() {
    let mut c: u32 = 0;
    while c <= 0x3100 {
        if let Some(ch) = char::from_u32(c) {
            assert_eq!(text::is_whitespace(ch), ch.is_whitespace(), "{c:x}");
        }
        c += 1;
    }
    assert!(!text::is_whitespace('\u{feff}'));
}

#[test]
fn trims_and_splits_like_std() {
    for s in ["", " ", "a", "  a b  ", "\t你好\u{3000}世界\n", "one", " x\u{a0}y "] {
        assert_eq!(text::trim(s), s.trim());
        let words: Vec<String> = s.split_whitespace().map(|w| w.to_string()).collect();
        assert_eq!(text::split_words(s), words);
    }
}

#[test]
fn searches_like_std() {
    let cases = [("hello", "ell"), ("hello", ""), ("", "x"), ("aab", "ab"), ("猫娘出来", "猫娘"), ("ab", "abc")];
    for (s, sub) in cases {
        assert_eq!(text::contains(s, sub), s.contains(sub));
        assert_eq!(text::starts_with(s, sub), s.starts_with(sub));
        assert_eq!(text::strip_prefix(s, sub), s.strip_prefix(sub).map(|t| t.to_string()));
        assert_eq!(text::strip_suffix(s, sub), s.strip_suffix(sub).map(|t| t.to_string()));
    }
    assert_eq!(text::to_ascii_lowercase("TeAse Ä"), "TeAse Ä".to_ascii_lowercase());
    assert_eq!(text::trim_end_char("http://h/v1//", '/'), "http://h/v1");
    assert_eq!(text::join(&vec!["a".to_string(), "b".to_string()], ", "), "a, b");
}

#[test]
fn reads_integers_like_std() {
    let cases = [
        "0", "7", "-7", "+7", "", "-", "+", "007", "9223372036854775807", "9223372036854775808",
        "-9223372036854775808", "-9223372036854775809", "18446744073709551615",
        "18446744073709551616", "12a", " 1", "--1", "-0",
    ];
    for s in cases {
        match (parse_i64(s), s.parse::<i64>()) {
            (Ok(a), Ok(b)) => assert_eq!(a, b),
            (Err(a), Err(b)) => assert_eq!(a.message(), b.to_string()),
            (a, b) => panic!("{s}: {a:?} {b:?}"),
        }
        match (parse_u64(s), s.parse::<u64>()) {
            (Ok(a), Ok(b)) => assert_eq!(a, b),
            (Err(a), Err(b)) => assert_eq!(a.message(), b.to_string()),
            (a, b) => panic!("{s}: {a:?} {b:?}"),
        }
    }
    assert_eq!(parse_i64(""), Err(IntError::Empty));
    assert_eq!(parse_i64("x"), Err(IntError::InvalidDigit));
    assert_eq!(parse_i64("9223372036854775808"), Err(IntError::TooLarge));
    assert_eq!(parse_i64("-9223372036854775809"), Err(IntError::TooSmall));
}

#[test]
fn writes_integers_like_std() {
    for n in [0i64, 1, -1, 10, 12345, i64::MAX, i64::MIN] {
        assert_eq!(signed_to_text(n), n.to_string());
        assert_eq!(parse_i64(&signed_to_text(n)), Ok(n));
    }
    for n in [0u128, 9, 10, u64::MAX as u128, u128::MAX] {
        assert_eq!(unsigned_to_text(n), n.to_string());
    }
}

#[test]
fn calendar_ends_where_it_says() {
    assert_eq!(
        Timestamp::of_millis(MAX_SECS * 1000 + 999),
        Some(Timestamp { secs: MAX_SECS, nanos: 999_000_000 })
    );
    assert_eq!(Timestamp::of_millis((MAX_SECS + 1) * 1000), None);
    assert_eq!(Timestamp::of_millis(MIN_SECS * 1000), Some(Timestamp { secs: MIN_SECS, nanos: 0 }));
    assert_eq!(Timestamp::of_millis(MIN_SECS * 1000 - 1), None);
    assert_eq!(Timestamp::of_millis(-1), Some(Timestamp { secs: -1, nanos: 999_000_000 }));
}

#[test]
fn writes_points_in_time() {
    let t = Timestamp { secs: 1_700_000_000, nanos: 0 };
    assert_eq!(t.clock(), "22:13");
    assert_eq!(t.day(), "11-14 22:13:20");
    assert_eq!(Timestamp { secs: 951_782_407, nanos: 5 }.day(), "02-29 00:00:07");
    assert_eq!(Timestamp { secs: -1, nanos: 0 }.day(), "12-31 23:59:59");
    assert_eq!(t.rfc3339(), "2023-11-14T22:13:20+00:00");
    assert_eq!(Timestamp { secs: -60, nanos: 5 }.clock(), "23:59");
    assert_eq!(t.millis(), 1_700_000_000_000);
    assert_eq!(Timestamp::of_millis(t.millis()), Some(t));
    let now = Timestamp::now();
    assert!(now.secs > 1_600_000_000 && now.nanos < 1_000_000_000);
}

#[test]
fn spans_round_toward_zero() {
    let a = Timestamp { secs: 10, nanos: 999_999_999 };
    let b = Timestamp { secs: 12, nanos: 0 };
    assert_eq!(b.since(&a), 1_000_000_001);
    assert_eq!(span_seconds(b.since(&a)), 1);
    assert_eq!(span_seconds(a.since(&b)), -1);
    assert_eq!(span_millis(a.since(&b)), -1000);
}

#[test]
fn ids_are_written_with_hyphens() {
    let id = 0x6ba7_b810_9dad_11d1_80b4_00c0_4fd4_30c8u128;
    assert_eq!(id_column(id), "6ba7b810-9dad-11d1-80b4-00c04fd430c8");
    assert_eq!(id_column(0), "00000000-0000-0000-0000-000000000000");
    assert_eq!(id_column(u128::MAX), "ffffffff-ffff-ffff-ffff-ffffffffffff");
}

#[test]
fn json_reads_and_writes() {
    let j = Json::parse(r#"{"b": [1, -2, 0.5, null, true], "a": "x\n"}"#).unwrap();
    assert_eq!(j.to_text(), r#"{"a":"x\n","b":[1,-2,0.5,null,true]}"#);
    assert_eq!(j.get("a").and_then(|v| v.as_str()), Some("x\n"));
    assert!(j.get("c").is_none());
    let list = j.get("b").and_then(|v| v.as_array()).unwrap();
    assert_eq!(list.len(), 5);
    assert_eq!(list[0].as_i64(), Some(1));
    assert_eq!(list[1].as_i64(), Some(-2));
    assert_eq!(list[2].as_i64(), None);
    assert!(matches!(&list[2], Json::Number(JsonNumber::Float { bits, text }) if f64::from_bits(*bits) == 0.5 && text == "0.5"));
    let big = Json::parse("18446744073709551615").unwrap();
    assert_eq!(big.as_i64(), None);
    assert_eq!(big.to_text(), "18446744073709551615");
    assert_eq!(Json::parse(&j.to_text()).unwrap(), j);
    let want = serde_json::from_str::<serde_json::Value>("{").unwrap_err().to_string();
    assert_eq!(Json::parse("{").unwrap_err(), want);
    assert_eq!(j.clone(), j);
}

#[test]
fn json_is_shared_on_copy() {
    let list = Arc::new(vec![Json::Null]);
    let j = Json::Array(list.clone());
    let _copy = j.clone();
    assert_eq!(Arc::strong_count(&list), 3);
}

#[test]
fn errors_say_their_kind() {
    let cases = [
        (NekoError::config("x".to_string()), "config error: x"),
        (NekoError::database("x".to_string()), "database error: x"),
        (NekoError::llm("x".to_string()), "llm error: x"),
        (NekoError::transport("x".to_string()), "transport error: x"),
        (NekoError::parse("x".to_string()), "parse error: x"),
        (NekoError::missing("x".to_string()), "missing: x"),
        (NekoError::other("x".to_string()), "x"),
    ];
    for (e, text) in cases {
        assert_eq!(e.message(), text);
    }
    assert_eq!(
        detailed(ErrorKind::Parse, "a: ", "b"),
        NekoError::Parse("a: b".to_string())
    );
}

#[test]
fn message_counts_words_and_characters() {
    let m = ChatMessage {
        id: 1,
        trace_id: 2,
        group_id: "g".to_string(),
        sender: "u".to_string(),
        nickname: "n".to_string(),
        content: " 你好  world ".to_string(),
        timestamp: Timestamp::now(),
        reply_to: None,
        raw_payload: Json::Null,
    };
    assert_eq!(m.word_count(), 2);
    assert_eq!(m.char_count(), 11);
    assert_eq!(m.clone(), m);
}

#[test]
fn table_keeps_keys_once() {
    let mut t: Table<u32> = Table::new();
    t.put("a".to_string(), 1);
    t.put("b".to_string(), 2);
    t.put("a".to_string(), 3);
    assert_eq!(t.len(), 2);
    assert_eq!(t.get("a"), Some(&3));
    assert_eq!(t.get("b"), Some(&2));
    assert_eq!(t.get("c"), None);
    assert_eq!(t.at(0).0, "a");
}

#[test]
fn secret_is_exposed_on_request() {
    let s = Secret::new("k".to_string());
    assert_eq!(s.expose(), "k");
    assert_eq!(s.copy().expose(), "k");
}
