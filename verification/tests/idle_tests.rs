use waydroid_tray::idle::{idle_left, idle_timeout, parse_u64, Span};

fn timeout() -> Span {
    Span::from_secs(30 * 60)
}

fn secs(n: u64) -> Span {
    Span::from_secs(n)
}

#[test]
fn a_running_session_has_no_deadline() {
    assert_eq!(idle_left(None, secs(1_000), timeout()), None);
}

#[test]
fn the_deadline_counts_down_while_frozen() {
    assert_eq!(
        idle_left(Some(secs(100)), secs(700), timeout()),
        Some(secs(1_200))
    );
}

/// The machine suspended two minutes after the session froze and woke
/// thirteen hours later: the stop is due on the first tick after resume.
#[test]
fn a_session_frozen_across_a_suspend_is_due_on_resume() {
    let froze = secs(120);
    let resumed = secs(120 + 13 * 60 * 60);
    assert_eq!(idle_left(Some(froze), resumed, timeout()), Some(secs(0)));
}

#[test]
fn a_clock_that_jumps_backwards_does_not_panic() {
    assert_eq!(
        idle_left(Some(secs(700)), secs(100), timeout()),
        Some(timeout())
    );
}

#[test]
fn spans_keep_their_nanoseconds() {
    let s = Span::from_secs_nanos(3, 250_000_000);
    assert_eq!(s.secs(), 3);
    assert_eq!(s.subsec_nanos(), 250_000_000);
    let left = s.saturating_sub(Span::from_secs_nanos(1, 500_000_000));
    assert_eq!((left.secs(), left.subsec_nanos()), (1, 750_000_000));
    assert_eq!(secs(1).saturating_sub(secs(2)), secs(0));
    let longest = Span::from_secs_nanos(u64::MAX, 999_999_999);
    assert_eq!(longest.secs(), u64::MAX);
}

#[test]
fn idle_timeout_override_is_whole_seconds() {
    assert_eq!(idle_timeout(None), secs(1800));
    assert_eq!(idle_timeout(Some("3")), secs(3));
    assert_eq!(idle_timeout(Some("+7")), secs(7));
    assert_eq!(idle_timeout(Some("")), secs(1800));
    assert_eq!(idle_timeout(Some("1.5")), secs(1800));
    assert_eq!(idle_timeout(Some("-1")), secs(1800));
}

#[test]
fn parse_u64_accepts_what_from_str_accepts() {
    assert_eq!(parse_u64("0"), Some(0));
    assert_eq!(parse_u64("007"), Some(7));
    assert_eq!(parse_u64("+"), None);
    assert_eq!(parse_u64(" 1"), None);
    assert_eq!(parse_u64("18446744073709551615"), Some(u64::MAX));
    assert_eq!(parse_u64("18446744073709551616"), None);
    assert_eq!(parse_u64("99999999999999999999x"), None);
    for s in ["12", "+12", "", "+", "x", "1 ", "٣"] {
        assert_eq!(parse_u64(s), s.parse::<u64>().ok(), "{s}");
    }
}
