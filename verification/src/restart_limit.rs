//! The restart rate limit: at most so many restarts within a rolling window.
//!
//! Specifications give the length of the window in nanoseconds.

use crate::time::{elapsed, Duration, Instant};
use std::collections::VecDeque;
use vstd::prelude::*;

verus! {

/// Whether a restart at `at` no longer counts at `now`: the window is half-open, so an entry
/// that is exactly `interval` old has left it.
pub open spec fn expired(at: Instant, now: Instant, interval: nat) -> bool {
    elapsed(now, at) >= interval
}

/// The recorded restarts without the expired ones at the front.
pub open spec fn pruned(times: Seq<Instant>, now: Instant, interval: nat) -> Seq<Instant>
    decreases times.len(),
{
    if times.len() > 0 && expired(times[0], now, interval) {
        pruned(times.skip(1), now, interval)
    } else {
        times
    }
}

/// Whether a restart at `now` stays within the limit.
pub open spec fn within_limit(
    times: Seq<Instant>,
    now: Instant,
    burst: u32,
    interval: nat,
) -> bool {
    pruned(times, now, interval).len() < burst
}

/// The record after an attempt at `now`.
pub open spec fn recorded(
    times: Seq<Instant>,
    now: Instant,
    burst: u32,
    interval: nat,
) -> Seq<Instant> {
    if within_limit(times, now, burst, interval) {
        pruned(times, now, interval).push(now)
    } else {
        times
    }
}

/// Records a restart attempt at `now` and returns whether it is allowed: at most `burst` restarts
/// are permitted within any rolling `interval` window.
///
/// Expired entries at the front do not count, so failures spaced farther apart than the window never
/// accumulate. When the attempt is allowed they are pruned and the attempt is recorded; when it is
/// denied the record is left unchanged.
pub fn within_restart_limit(
    restart_times: &mut VecDeque<Instant>,
    now: Instant,
    burst: u32,
    interval: Duration,
) -> (allowed: bool)
    ensures
        allowed == within_limit(old(restart_times)@, now, burst, interval@),
        final(restart_times)@ == recorded(old(restart_times)@, now, burst, interval@),
{
    let ghost before = restart_times@;
    let mut stale: usize = 0;
    assert(before.skip(0) == before);
    while stale < restart_times.len() && now.duration_since(restart_times[stale]).as_nanos()
        >= interval.as_nanos()
        invariant
            restart_times@ == before,
            stale <= before.len(),
            pruned(before.skip(stale as int), now, interval@) == pruned(before, now, interval@),
        decreases before.len() - stale,
    {
        assert(before.skip(stale as int).skip(1) == before.skip(stale + 1));
        stale += 1;
    }
    if restart_times.len() - stale >= burst as usize {
        return false;
    }
    let mut popped: usize = 0;
    while popped < stale
        invariant
            popped <= stale <= before.len(),
            restart_times@ == before.skip(popped as int),
        decreases stale - popped,
    {
        let _ = restart_times.pop_front();
        popped += 1;
    }
    restart_times.push_back(now);
    true
}

/// The state of the limiter after a series of attempts on an empty record: what is recorded,
/// and which of the attempts were allowed.
pub open spec fn limiter_run(attempts: Seq<Instant>, burst: u32, interval: nat) -> (
    Seq<Instant>,
    Seq<Instant>,
)
    decreases attempts.len(),
{
    if attempts.len() == 0 {
        (Seq::empty(), Seq::empty())
    } else {
        let (times, allowed) = limiter_run(attempts.drop_last(), burst, interval);
        let now = attempts.last();
        (
            recorded(times, now, burst, interval),
            if within_limit(times, now, burst, interval) {
                allowed.push(now)
            } else {
                allowed
            },
        )
    }
}

/// Whether the points come in the order of a monotonic clock.
pub open spec fn in_order(times: Seq<Instant>) -> bool {
    forall|i: int, j: int| 0 <= i <= j < times.len() ==> times[i]@ <= times[j]@
}

/// Whether `at` lies in the half-open window of length `interval` that starts at `start`.
pub open spec fn in_window(at: Instant, start: nat, interval: nat) -> bool {
    start <= at@ < start + interval
}

/// Pruning drops a prefix of expired entries and stops at the first entry that still counts.
pub proof fn lemma_pruned_is_suffix(times: Seq<Instant>, now: Instant, interval: nat) -> (k: int)
    ensures
        0 <= k <= times.len(),
        pruned(times, now, interval) == times.skip(k),
        forall|i: int| 0 <= i < k ==> expired(#[trigger] times[i], now, interval),
        k < times.len() ==> !expired(times[k], now, interval),
    decreases times.len(),
{
    if times.len() > 0 && expired(times[0], now, interval) {
        let k = lemma_pruned_is_suffix(times.skip(1), now, interval) + 1;
        assert(times.skip(1).skip(k - 1) == times.skip(k));
        assert forall|i: int| 0 <= i < k implies expired(#[trigger] times[i], now, interval) by {
            if i > 0 {
                assert(times[i] == times.skip(1)[i - 1]);
            }
        }
        if k < times.len() {
            assert(times[k] == times.skip(1)[k - 1]);
        }
        k
    } else {
        assert(times.skip(0) == times);
        0
    }
}

/// What every series of attempts keeps: the record is the most recent part of the allowed
/// attempts and never longer than `burst`, and what was dropped from it has left the window.
proof fn lemma_run_invariant(attempts: Seq<Instant>, burst: u32, interval: nat)
    requires
        in_order(attempts),
    ensures
        ({
            let (times, allowed) = limiter_run(attempts, burst, interval);
            &&& times.len() <= burst
            &&& times.len() <= allowed.len()
            &&& times == allowed.skip(allowed.len() - times.len())
            &&& in_order(allowed)
            &&& forall|i: int|
                0 <= i < allowed.len() ==> (#[trigger] allowed[i])@ <= attempts.last()@
            &&& forall|i: int|
                0 <= i < allowed.len() - times.len() ==> expired(
                    #[trigger] allowed[i],
                    attempts.last(),
                    interval,
                )
            &&& forall|i: int, j: int|
                0 <= i && i + burst <= j < allowed.len() ==> (#[trigger] allowed[j])@ - (
                #[trigger] allowed[i])@ >= interval
        }),
    decreases attempts.len(),
{
    if attempts.len() > 0 {
        let prefix = attempts.drop_last();
        let now = attempts.last();
        lemma_run_invariant(prefix, burst, interval);
        let (times, allowed) = limiter_run(prefix, burst, interval);
        let k = lemma_pruned_is_suffix(times, now, interval);
        let kept = pruned(times, now, interval);
        let dropped = allowed.len() - times.len();
        assert(attempts.len() > 1 ==> prefix.last()@ <= now@);
        assert(kept == allowed.skip(dropped + k));
        assert forall|i: int| 0 <= i < dropped + k implies expired(
            #[trigger] allowed[i],
            now,
            interval,
        ) by {
            if i >= dropped {
                assert(allowed[i] == times[i - dropped]);
            }
        }
        if within_limit(times, now, burst, interval) {
            let all = allowed.push(now);
            assert(kept.push(now) == all.skip(dropped + k));
            assert forall|i: int, j: int|
                0 <= i && i + burst <= j < all.len() implies (#[trigger] all[j])@ - (
            #[trigger] all[i])@ >= interval by {
                if j == allowed.len() {
                    assert(i < dropped + k);
                    assert(expired(allowed[i], now, interval));
                } else {
                    assert(allowed[j]@ - allowed[i]@ >= interval);
                }
            }
        }
    }
}

/// At most `burst` restarts are permitted within any rolling `interval` window: however attempts
/// follow one another, and wherever the window starts, no more than `burst` of the attempts in it
/// were allowed.
pub proof fn law_at_most_burst_in_any_window(
    attempts: Seq<Instant>,
    burst: u32,
    interval: nat,
    start: nat,
)
    requires
        in_order(attempts),
    ensures
        limiter_run(attempts, burst, interval).1.filter(
            |at: Instant| in_window(at, start, interval),
        ).len() <= burst,
{
    lemma_run_invariant(attempts, burst, interval);
    lemma_window_count(limiter_run(attempts, burst, interval).1, burst, interval, start);
}

/// Among the allowed attempts, the one that comes `burst` places after another comes at least
/// `interval` later.
pub proof fn law_allowed_attempts_are_spaced(
    attempts: Seq<Instant>,
    burst: u32,
    interval: nat,
    i: int,
    j: int,
)
    requires
        in_order(attempts),
        0 <= i,
        i + burst <= j < limiter_run(attempts, burst, interval).1.len(),
    ensures
        limiter_run(attempts, burst, interval).1[j]@ >= limiter_run(attempts, burst, interval).1[i]@
            + interval,
{
    lemma_run_invariant(attempts, burst, interval);
}

/// After any series of attempts, the next one is denied exactly if at least `burst` of the allowed
/// ones are younger than `interval`.
pub proof fn law_denied_exactly_if_burst_are_recent(
    attempts: Seq<Instant>,
    now: Instant,
    burst: u32,
    interval: nat,
)
    requires
        in_order(attempts.push(now)),
    ensures
        ({
            let (times, allowed) = limiter_run(attempts, burst, interval);
            !within_limit(times, now, burst, interval) <==> allowed.filter(
                |at: Instant| !expired(at, now, interval),
            ).len() >= burst
        }),
{
    let alive = |at: Instant| !expired(at, now, interval);
    let (times, allowed) = limiter_run(attempts, burst, interval);
    let dropped = allowed.len() - times.len();
    assert forall|i: int, j: int| 0 <= i <= j < attempts.len() implies attempts[i]@
        <= attempts[j]@ by {
        assert(attempts.push(now)[i]@ <= attempts.push(now)[j]@);
    }
    lemma_run_invariant(attempts, burst, interval);
    if attempts.len() > 0 {
        assert(attempts.push(now)[attempts.len() - 1]@ <= attempts.push(now)[attempts.len() as int]@);
    }
    let gone = allowed.take(dropped);
    assert(allowed == gone + times);
    Seq::filter_distributes_over_add(gone, times, alive);
    assert forall|i: int| 0 <= i < gone.len() implies !alive(#[trigger] gone[i]) by {
        assert(expired(allowed[i], attempts.last(), interval));
    }
    lemma_filter_none(gone, alive);
    assert forall|i: int, j: int| 0 <= i <= j < times.len() implies times[i]@ <= times[j]@ by {
        assert(times[i] == allowed[dropped + i] && times[j] == allowed[dropped + j]);
    }
    law_pruning_removes_exactly_the_expired(times, now, interval);
}

/// Points of which any two that are `burst` apart lie at least `interval` apart put at most
/// `burst` of them into a window.
proof fn lemma_window_count(times: Seq<Instant>, burst: u32, interval: nat, start: nat)
    requires
        forall|i: int, j: int|
            0 <= i && i + burst <= j < times.len() ==> (#[trigger] times[j])@ - (
            #[trigger] times[i])@ >= interval,
    ensures
        times.filter(|at: Instant| in_window(at, start, interval)).len() <= burst,
    decreases times.len(),
{
    let inside = |at: Instant| in_window(at, start, interval);
    if times.len() > burst {
        if inside(times.last()) {
            let cut = times.len() - burst;
            let early = times.take(cut);
            let late = times.skip(cut);
            assert(times == early + late);
            Seq::filter_distributes_over_add(early, late, inside);
            assert forall|i: int| 0 <= i < early.len() implies !inside(#[trigger] early[i]) by {
                assert(times.last()@ - times[i]@ >= interval);
            }
            lemma_filter_none(early, inside);
            late.lemma_filter_len(inside);
        } else {
            let rest = times.drop_last();
            reveal(Seq::filter);
            assert forall|i: int, j: int| 0 <= i && i + burst <= j < rest.len() implies (
            #[trigger] rest[j])@ - (#[trigger] rest[i])@ >= interval by {
                assert(times[j]@ - times[i]@ >= interval);
            }
            lemma_window_count(rest, burst, interval, start);
        }
    } else {
        times.lemma_filter_len(inside);
    }
}

proof fn lemma_filter_none(s: Seq<Instant>, pred: spec_fn(Instant) -> bool)
    requires
        forall|i: int| 0 <= i < s.len() ==> !pred(#[trigger] s[i]),
    ensures
        s.filter(pred).len() == 0,
    decreases s.len(),
{
    reveal(Seq::filter);
    if s.len() > 0 {
        assert(!pred(s[s.len() - 1]));
        assert forall|i: int| 0 <= i < s.drop_last().len() implies !pred(
            #[trigger] s.drop_last()[i],
        ) by {
            assert(!pred(s[i]));
        }
        lemma_filter_none(s.drop_last(), pred);
    }
}

/// Attempts that come at least `interval` apart are all allowed, forever, and leave only the
/// latest one on record: a slow crash loop never trips the limit.
pub proof fn law_slow_attempts_never_trip(attempts: Seq<Instant>, burst: u32, interval: nat)
    requires
        burst > 0,
        forall|i: int|
            0 < i < attempts.len() ==> (#[trigger] attempts[i])@ >= attempts[i - 1]@ + interval,
    ensures
        limiter_run(attempts, burst, interval).1 == attempts,
        attempts.len() > 0 ==> limiter_run(attempts, burst, interval).0 == seq![attempts.last()],
    decreases attempts.len(),
{
    if attempts.len() > 0 {
        let prefix = attempts.drop_last();
        assert forall|i: int| 0 < i < prefix.len() implies (#[trigger] prefix[i])@ >= prefix[i
            - 1]@ + interval by {
            assert(attempts[i]@ >= attempts[i - 1]@ + interval);
        }
        law_slow_attempts_never_trip(prefix, burst, interval);
        let now = attempts.last();
        let (times, allowed) = limiter_run(prefix, burst, interval);
        if prefix.len() > 0 {
            assert(attempts[attempts.len() - 1]@ >= attempts[attempts.len() - 2]@ + interval);
            assert(expired(times[0], now, interval));
            assert(times.skip(1) == Seq::<Instant>::empty());
            reveal_with_fuel(pruned, 2);
        }
        assert(pruned(times, now, interval) == Seq::<Instant>::empty());
        assert(Seq::<Instant>::empty().push(now) == seq![now]);
        assert(prefix.push(now) == attempts);
    }
}

/// A denied attempt consumes no budget: the record is left exactly as it was.
pub proof fn law_denied_attempt_leaves_record_unchanged(
    times: Seq<Instant>,
    now: Instant,
    burst: u32,
    interval: nat,
)
    requires
        !within_limit(times, now, burst, interval),
    ensures
        recorded(times, now, burst, interval) == times,
{
}

/// The record never grows past `burst`.
pub proof fn law_record_stays_within_burst(
    times: Seq<Instant>,
    now: Instant,
    burst: u32,
    interval: nat,
)
    requires
        times.len() <= burst,
    ensures
        recorded(times, now, burst, interval).len() <= burst,
{
    let k = lemma_pruned_is_suffix(times, now, interval);
}

/// Once the earliest recorded restart has aged out of the window, a new attempt is allowed again.
pub proof fn law_budget_recovers(
    times: Seq<Instant>,
    now: Instant,
    burst: u32,
    interval: nat,
)
    requires
        0 < times.len() <= burst,
        expired(times[0], now, interval),
    ensures
        within_limit(times, now, burst, interval),
{
    let k = lemma_pruned_is_suffix(times.skip(1), now, interval);
}

/// In a record that is in order, pruning removes every expired restart and no other: what stays
/// is exactly what still counts.
pub proof fn law_pruning_removes_exactly_the_expired(
    times: Seq<Instant>,
    now: Instant,
    interval: nat,
)
    requires
        in_order(times),
    ensures
        pruned(times, now, interval) == times.filter(|at: Instant| !expired(at, now, interval)),
{
    let alive = |at: Instant| !expired(at, now, interval);
    let k = lemma_pruned_is_suffix(times, now, interval);
    let gone = times.take(k);
    let kept = times.skip(k);
    assert(times == gone + kept);
    Seq::filter_distributes_over_add(gone, kept, alive);
    lemma_filter_none(gone, alive);
    assert forall|i: int| 0 <= i < kept.len() implies alive(#[trigger] kept[i]) by {
        assert(times[k]@ <= times[k + i]@);
    }
    lemma_filter_all(kept, alive);
    assert(gone.filter(alive) + kept == kept);
}

proof fn lemma_filter_all(s: Seq<Instant>, pred: spec_fn(Instant) -> bool)
    requires
        forall|i: int| 0 <= i < s.len() ==> pred(#[trigger] s[i]),
    ensures
        s.filter(pred) == s,
    decreases s.len(),
{
    reveal(Seq::filter);
    if s.len() > 0 {
        let rest = s.drop_last();
        assert(pred(s[s.len() - 1]));
        assert forall|i: int| 0 <= i < rest.len() implies pred(#[trigger] rest[i]) by {
            assert(pred(s[i]));
        }
        lemma_filter_all(rest, pred);
        assert(rest.push(s.last()) == s);
    }
}

/// Whether the entries of a record before the `k`th one are the stale ones at its front: each of them
/// is `interval` nanoseconds old or older, and the `k`th one, if there is one, is younger.
pub open spec fn stale_front(times: Seq<Instant>, now: Instant, interval: nat, k: int) -> bool {
    &&& 0 <= k <= times.len()
    &&& forall|i: int| 0 <= i < k ==> now@ - (#[trigger] times[i])@ >= interval || interval == 0
    &&& k < times.len() ==> now@ - times[k]@ < interval && interval > 0
}

/// One attempt, for any record: with the stale entries at the front left aside, it is allowed exactly
/// if fewer than `burst` entries are left. An allowed attempt replaces the stale entries by itself at
/// the end; a denied one leaves the record unchanged.
pub proof fn law_one_attempt(
    times: &mut VecDeque<Instant>,
    now: Instant,
    burst: u32,
    interval: Duration,
    allowed: bool,
) -> (k: int)
    requires
        call_ensures(within_restart_limit, (times, now, burst, interval), allowed),
    ensures
        stale_front(old(times)@, now, interval@, k),
        allowed <==> old(times)@.len() - k < burst,
        allowed ==> final(times)@ == old(times)@.skip(k).push(now),
        !allowed ==> final(times)@ == old(times)@,
        within_limit(old(times)@, now, burst, interval@) == allowed,
        recorded(old(times)@, now, burst, interval@) == final(times)@,
{
    lemma_pruned_is_suffix(old(times)@, now, interval@)
}

/// The stale entries at the front of a record are the same however they are found.
pub proof fn law_stale_front_is_unique(
    times: Seq<Instant>,
    now: Instant,
    interval: nat,
    k: int,
    other: int,
)
    requires
        stale_front(times, now, interval, k),
        stale_front(times, now, interval, other),
    ensures
        k == other,
{
    if k < other {
        assert(now@ - times[k]@ >= interval || interval == 0);
    } else if other < k {
        assert(now@ - times[other]@ >= interval || interval == 0);
    }
}

/// In a record in the order of the clock, an attempt is allowed exactly if fewer than `burst` of all
/// entries are younger than the window, and what stays on record are exactly those and the attempt.
pub proof fn law_attempt_counts_the_young(
    times: &mut VecDeque<Instant>,
    now: Instant,
    burst: u32,
    interval: Duration,
    allowed: bool,
)
    requires
        call_ensures(within_restart_limit, (times, now, burst, interval), allowed),
        in_order(old(times)@.push(now)),
    ensures
        ({
            let young = old(times)@.filter(|at: Instant| at@ + interval@ > now@);
            &&& allowed <==> young.len() < burst
            &&& allowed ==> final(times)@ == young.push(now)
        }),
{
    let record = old(times)@;
    assert forall|i: int, j: int| 0 <= i <= j < record.len() implies record[i]@ <= record[j]@ by {
        assert(record.push(now)[i]@ <= record.push(now)[j]@);
    }
    law_pruning_removes_exactly_the_expired(record, now, interval@);
    let live = |at: Instant| !expired(at, now, interval@);
    let young = |at: Instant| at@ + interval@ > now@;
    assert forall|i: int| 0 <= i < record.len() implies live(#[trigger] record[i]) == young(
        record[i],
    ) by {
        assert(record.push(now)[i]@ <= record.push(now)[record.len() as int]@);
    }
    lemma_filter_same(record, live, young);
}

/// Two conditions that agree on every entry pick the same entries.
pub proof fn lemma_filter_same(
    s: Seq<Instant>,
    one: spec_fn(Instant) -> bool,
    other: spec_fn(Instant) -> bool,
)
    requires
        forall|i: int| 0 <= i < s.len() ==> one(#[trigger] s[i]) == other(s[i]),
    ensures
        s.filter(one) == s.filter(other),
    decreases s.len(),
{
    reveal(Seq::filter);
    if s.len() > 0 {
        assert(one(s[s.len() - 1]) == other(s[s.len() - 1]));
        assert forall|i: int| 0 <= i < s.drop_last().len() implies one(#[trigger] s.drop_last()[i])
            == other(s.drop_last()[i]) by {
            assert(one(s[i]) == other(s[i]));
        }
        lemma_filter_same(s.drop_last(), one, other);
    }
}

/// Every allowed attempt is one of the attempts.
pub proof fn lemma_allowed_are_attempts(attempts: Seq<Instant>, burst: u32, interval: nat)
    ensures
        forall|i: int|
            0 <= i < limiter_run(attempts, burst, interval).1.len() ==> exists|k: int|
                0 <= k < attempts.len() && #[trigger] attempts[k] == #[trigger] limiter_run(
                    attempts,
                    burst,
                    interval,
                ).1[i],
    decreases attempts.len(),
{
    if attempts.len() > 0 {
        let before = attempts.drop_last();
        lemma_allowed_are_attempts(before, burst, interval);
        let earlier = limiter_run(before, burst, interval).1;
        let allowed = limiter_run(attempts, burst, interval).1;
        assert forall|i: int| 0 <= i < allowed.len() implies exists|k: int|
            0 <= k < attempts.len() && #[trigger] attempts[k] == #[trigger] allowed[i] by {
            if i < earlier.len() {
                assert(allowed[i] == earlier[i]);
                let k = choose|k: int| 0 <= k < before.len() && #[trigger] before[k] == earlier[i];
                assert(attempts[k] == before[k]);
            } else {
                assert(attempts[attempts.len() - 1] == allowed[i]);
            }
        }
    }
}

} // verus!
