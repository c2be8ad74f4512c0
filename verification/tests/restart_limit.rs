use dora_nodes::restart_limit::within_restart_limit;
use dora_nodes::time::{Duration, Instant};
use std::collections::VecDeque;

/// A point on a clock that was started well before.
fn at(offset: Duration) -> Instant {
    Instant::after_start(Duration::new(1_000 + offset.as_secs(), offset.subsec_nanos()))
}

fn secs(secs: u64) -> Instant {
    at(Duration::from_secs(secs))
}

#[test]
fn allows_up_to_burst_then_denies_within_window() {
    let mut q = VecDeque::new();
    let burst = 3;
    let win = Duration::from_secs(10);
    // burst restarts within the window are allowed
    assert!(within_restart_limit(&mut q, secs(0), burst, win));
    assert!(within_restart_limit(&mut q, secs(1), burst, win));
    assert!(within_restart_limit(&mut q, secs(2), burst, win));
    // the next restart still inside the window is denied
    assert!(!within_restart_limit(&mut q, secs(3), burst, win));
    // a denied attempt must not consume budget
    assert_eq!(q.len() as u32, burst);
}

#[test]
fn slow_crash_loop_never_trips() {
    // Crashes spaced wider than the window must restart forever (old timestamps prune away).
    let mut q = VecDeque::new();
    let burst = 3;
    let win = Duration::from_secs(10);
    for i in 0..100 {
        let now = secs(i * 11);
        assert!(within_restart_limit(&mut q, now, burst, win), "iteration {i}");
        assert_eq!(q.len(), 1);
    }
}

#[test]
fn entry_exactly_at_interval_is_pruned() {
    let mut q = VecDeque::new();
    let burst = 1;
    let win = Duration::from_secs(10);
    assert!(within_restart_limit(&mut q, secs(0), burst, win));
    // exactly `interval` later the old entry ages out (half-open window), so allowed again
    assert!(within_restart_limit(&mut q, secs(10), burst, win));
    assert_eq!(q.len(), 1);
}

#[test]
fn budget_recovers_after_window_passes() {
    let mut q = VecDeque::new();
    let burst = 5;
    let win = Duration::from_secs(30);
    for i in 0..5 {
        assert!(within_restart_limit(&mut q, secs(i), burst, win));
    }
    // 6th within the window is denied
    assert!(!within_restart_limit(&mut q, secs(5), burst, win));
    // once the earliest restart ages out, a new attempt is allowed again
    assert!(within_restart_limit(&mut q, secs(31), burst, win));
}

#[test]
fn entry_just_inside_the_window_still_counts() {
    let mut q = VecDeque::new();
    let win = Duration::from_secs(10);
    assert!(within_restart_limit(&mut q, secs(0), 1, win));
    let just_before = at(Duration::new(9, 999_999_999));
    assert!(!within_restart_limit(&mut q, just_before, 1, win));
    assert_eq!(q, VecDeque::from(vec![secs(0)]));
}

#[test]
fn denied_attempt_leaves_record_unchanged() {
    let mut q = VecDeque::new();
    let win = Duration::from_secs(10);
    assert!(within_restart_limit(&mut q, secs(0), 2, win));
    assert!(within_restart_limit(&mut q, secs(4), 2, win));
    let before = q.clone();
    assert!(!within_restart_limit(&mut q, secs(9), 2, win));
    assert_eq!(q, before);
}

#[test]
fn denied_attempt_keeps_expired_entries_of_a_long_record() {
    let win = Duration::from_secs(10);
    let mut q = VecDeque::from(vec![secs(0), secs(1), secs(8), secs(9)]);
    let before = q.clone();
    assert!(!within_restart_limit(&mut q, secs(12), 2, win));
    assert_eq!(q, before);
    // at a higher burst the attempt is allowed, and the expired entries go
    assert!(within_restart_limit(&mut q, secs(12), 3, win));
    assert_eq!(q, VecDeque::from(vec![secs(8), secs(9), secs(12)]));
}

#[test]
fn attempt_is_denied_exactly_if_burst_are_recent() {
    let win = Duration::from_secs(10);
    let burst = 3;
    let mut q = VecDeque::new();
    let mut allowed: Vec<u64> = Vec::new();
    for i in 0..100 {
        let t = i * 7 / 4;
        let recent = allowed.iter().filter(|at| t - **at < 10).count();
        let verdict = within_restart_limit(&mut q, secs(t), burst, win);
        assert_eq!(verdict, recent < 3, "attempt at {t}");
        if verdict {
            allowed.push(t);
        }
    }
    // the one that comes `burst` places later comes at least a window later
    for i in 3..allowed.len() {
        assert!(allowed[i] >= allowed[i - 3] + 10);
    }
}

#[test]
fn no_restart_within_a_burst_of_zero() {
    let mut q = VecDeque::new();
    assert!(!within_restart_limit(&mut q, secs(0), 0, Duration::from_secs(10)));
    assert!(q.is_empty());
}

#[test]
fn empty_window_never_denies() {
    let mut q = VecDeque::new();
    for _ in 0..5 {
        assert!(within_restart_limit(&mut q, secs(7), 1, Duration::from_secs(0)));
        assert_eq!(q.len(), 1);
    }
}

#[test]
fn clock_that_goes_back_counts_as_no_time() {
    let mut q = VecDeque::new();
    let win = Duration::from_secs(10);
    assert!(within_restart_limit(&mut q, secs(100), 1, win));
    assert!(!within_restart_limit(&mut q, secs(0), 1, win));
    assert_eq!(q.len(), 1);
}

#[test]
fn pruning_drops_exactly_the_expired() {
    let mut q = VecDeque::from(vec![secs(0), secs(1), secs(5), secs(8)]);
    assert!(within_restart_limit(&mut q, secs(11), 3, Duration::from_secs(10)));
    assert_eq!(q, VecDeque::from(vec![secs(5), secs(8), secs(11)]));
}

#[test]
fn at_most_burst_in_any_window() {
    let win = Duration::from_secs(10);
    let mut q = VecDeque::new();
    let mut allowed = Vec::new();
    for i in 0..200 {
        let t = i * 3 / 2;
        if within_restart_limit(&mut q, secs(t), 3, win) {
            allowed.push(t);
        }
    }
    assert!(allowed.len() > 3);
    for start in 0..320 {
        let inside = allowed.iter().filter(|t| start <= **t && **t < start + 10).count();
        assert!(inside <= 3, "window at {start}");
    }
}

#[test]
fn durations_split_into_seconds_and_nanoseconds() {
    let d = Duration::new(3, 250_000_001);
    assert_eq!(d.as_secs(), 3);
    assert_eq!(d.subsec_nanos(), 250_000_001);
    assert_eq!(d.as_nanos(), 3_250_000_001);
    assert_eq!(Duration::from_millis(200).as_nanos(), 200_000_000);
    let longest = Duration::new(u64::MAX, 999_999_999);
    assert_eq!(longest.as_secs(), u64::MAX);
    assert_eq!(longest.subsec_nanos(), 999_999_999);
}

#[test]
fn time_between_instants() {
    assert_eq!(secs(12).duration_since(secs(2)), Duration::from_secs(10));
    assert_eq!(secs(2).duration_since(secs(12)), Duration::from_secs(0));
}
