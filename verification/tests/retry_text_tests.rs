use stream_recorder::path::{extension, join_path};
use stream_recorder::retry::{retry_delay_seconds, RetryDecision, RetryState};
use stream_recorder::text::{
    decimal_string, ends_with, parse_unsigned, same_text, split_on, starts_with, trim,
    zero_padded_string,
};

#[test]
fn backoff_first_retry_is_immediate_then_doubles() {
    let delays: Vec<u64> = (1..=10).map(|n| retry_delay_seconds(n, 1000)).collect();
    assert_eq!(delays, vec![0, 1, 2, 4, 8, 16, 32, 64, 64, 64]);
}

#[test]
fn backoff_is_capped_by_retry_delay() {
    let delays: Vec<u64> = (1..=6).map(|n| retry_delay_seconds(n, 5)).collect();
    assert_eq!(delays, vec![0, 1, 2, 4, 5, 5]);
    assert_eq!(retry_delay_seconds(u32::MAX, 0), 0);
}

#[test]
fn bounded_retries_give_up_after_budget() {
    let mut state = RetryState::new();
    assert!(state.may_attempt(true, 3));
    assert_eq!(state.after_failure(3, 5), RetryDecision::RetryAfter(0));
    assert!(state.may_attempt(true, 3));
    assert_eq!(state.after_failure(3, 5), RetryDecision::RetryAfter(1));
    assert!(state.may_attempt(true, 3));
    assert_eq!(state.after_failure(3, 5), RetryDecision::GiveUp);
    assert!(!state.may_attempt(true, 3));
    assert!(state.retries_exhausted(3));
}

#[test]
fn unbounded_retries_never_give_up() {
    let mut state = RetryState::new();
    for _ in 0..20 {
        assert!(state.may_attempt(true, 0));
        assert!(matches!(state.after_failure(0, 5), RetryDecision::RetryAfter(_)));
    }
    assert!(!state.retries_exhausted(0));
    assert!(!state.may_attempt(false, 0));
}

#[test]
fn trim_and_split_follow_std() {
    for s in ["  a b \t", "", "   ", "\u{3000}x\u{a0}", "x"] {
        assert_eq!(trim(s), s.trim());
    }
    for s in ["a,b", ",", "", "a,,b,", "abc"] {
        assert_eq!(split_on(s, ','), s.split(',').collect::<Vec<_>>());
    }
}

#[test]
fn prefixes_suffixes_and_equality() {
    assert!(starts_with("rtsp://cam", "rtsp://"));
    assert!(!starts_with("http://cam", "rtsp://"));
    assert!(ends_with("/a/b.mp4", ".mp4"));
    assert!(!ends_with("mp4", ".mp4"));
    assert!(same_text("tcp", "tcp"));
    assert!(!same_text("tcp", "udp"));
}

#[test]
fn decimal_rendering_and_parsing() {
    assert_eq!(decimal_string(0), "0");
    assert_eq!(decimal_string(10_000_000), "10000000");
    assert_eq!(decimal_string(u64::MAX), u64::MAX.to_string());
    assert_eq!(zero_padded_string(7, 6), "000007");
    assert_eq!(zero_padded_string(1234567, 6), "1234567");
    assert_eq!(parse_unsigned("42", u32::MAX as u64), Some(42));
    assert_eq!(parse_unsigned("+42", u32::MAX as u64), Some(42));
    assert_eq!(parse_unsigned("65536", u16::MAX as u64), None);
    assert_eq!(parse_unsigned("", u64::MAX), None);
    assert_eq!(parse_unsigned("+", u64::MAX), None);
    assert_eq!(parse_unsigned("1 ", u64::MAX), None);
    assert_eq!(parse_unsigned("18446744073709551616", u64::MAX), None);
    for n in [0u64, 9, 10, 65535, u64::MAX] {
        assert_eq!(parse_unsigned(&decimal_string(n), u64::MAX), Some(n));
    }
}

#[test]
fn paths_join_and_extensions() {
    assert_eq!(join_path("/recordings", "cam1"), "/recordings/cam1");
    assert_eq!(join_path("/recordings/", "cam1"), "/recordings/cam1");
    assert_eq!(join_path("/recordings", "/abs"), "/abs");
    assert_eq!(join_path("", "cam1"), "cam1");
    assert_eq!(extension("a.mp4"), Some("mp4"));
    assert_eq!(extension("a.b.mp4"), Some("mp4"));
    assert_eq!(extension(".mp4"), None);
    assert_eq!(extension("noext"), None);
    assert_eq!(extension(".."), None);
    assert_eq!(extension("a."), Some(""));
}
