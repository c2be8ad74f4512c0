//! What holds of the restart loop over any course of events.

use crate::logging::LogLevel;
use crate::node::{NodeExitStatus, NodeKind, PreparedNode, RestartPolicy};
use crate::restart_limit::{
    expired, in_order, in_window, law_at_most_burst_in_any_window,
    law_denied_exactly_if_burst_are_recent, lemma_allowed_are_attempts, lemma_filter_same, limiter_run,
};
use crate::supervisor::{
    accepts, after_exit, delay_message, eligible, failure_trace, log, receiver_kept, refusal,
    report, restarts, transition, EffectView, LoopEvent, LoopState, NodeCommand,
    NodeProcessFinished, Phase, Resume,
};
use crate::supervisor_steps::{asks_for_restart, sets_limit};
use crate::time::{Instant, NANOS_PER_SEC};
use vstd::prelude::*;

verus! {

/// The state after a course of events.
pub open spec fn run<R>(
    node: PreparedNode,
    s: LoopState<R>,
    events: Seq<LoopEvent<R>>,
) -> LoopState<R>
    decreases events.len(),
{
    if events.len() == 0 {
        s
    } else {
        transition(node, run(node, s, events.drop_last()), events.last()).0
    }
}

/// Everything that is done in a course of events.
pub open spec fn run_effects<R>(
    node: PreparedNode,
    s: LoopState<R>,
    events: Seq<LoopEvent<R>>,
) -> Seq<EffectView<R>>
    decreases events.len(),
{
    if events.len() == 0 {
        Seq::empty()
    } else {
        run_effects(node, s, events.drop_last()) + transition(
            node,
            run(node, s, events.drop_last()),
            events.last(),
        ).1
    }
}

/// Whether each event can occur where the ones before it have led.
pub open spec fn possible<R>(
    node: PreparedNode,
    s: LoopState<R>,
    events: Seq<LoopEvent<R>>,
) -> bool
    decreases events.len(),
{
    events.len() > 0 ==> possible(node, s, events.drop_last()) && accepts(
        run(node, s, events.drop_last()).phase,
        events.last(),
    )
}

/// The state in which the loop of a node starts.
pub open spec fn initial<R>() -> LoopState<R> {
    LoopState { phase: Phase::Running, restart_times: Seq::empty(), op_rx: None }
}

/// Whether a start command is among the events.
pub open spec fn started<R>(events: Seq<LoopEvent<R>>) -> bool {
    exists|i: int|
        0 <= i < events.len() && #[trigger] events[i] == LoopEvent::<R>::Command(
            NodeCommand::Start,
        )
}

/// Whether a new process is spawned.
pub open spec fn respawns<R>(effects: Seq<EffectView<R>>) -> bool {
    exists|i: int| 0 <= i < effects.len() && #[trigger] effects[i] is Respawn
}

/// What the daemon is told about ended processes.
pub open spec fn reports<R>(effects: Seq<EffectView<R>>) -> Seq<EffectView<R>> {
    effects.filter(|e: EffectView<R>| e is Report)
}

proof fn lemma_not_started<R>(events: Seq<LoopEvent<R>>)
    requires
        !started(events),
    ensures
        events.len() > 0 ==> !started(events.drop_last()) && events.last() != LoopEvent::<
            R,
        >::Command(NodeCommand::Start),
{
    if events.len() > 0 {
        assert(events[events.len() - 1] == events.last());
        assert forall|i: int| 0 <= i < events.drop_last().len() implies #[trigger]
        events.drop_last()[i] != LoopEvent::<R>::Command(NodeCommand::Start) by {
            assert(events.drop_last()[i] == events[i]);
        }
    }
}

/// Killing a node does not disable its restart policy: the end of a killed process is handled
/// exactly as if the process had ended on its own.
pub proof fn law_kill_keeps_restart_policy<R>(
    node: PreparedNode,
    s: LoopState<R>,
    finished: NodeProcessFinished<R>,
    restart_disabled: bool,
    now: Instant,
)
    requires
        s.phase is Running,
    ensures
        ({
            let event = LoopEvent::Finished { finished, restart_disabled, now };
            let killed = transition(node, s, LoopEvent::Command(NodeCommand::Kill)).0;
            transition(node, killed, event) == transition(node, s, event)
        }),
{
}

/// Stopping a node disables its restart policy: whatever the policy says, the node is parked when
/// its process ends, and the daemon is told that it was stopped by hand and is not restarted.
pub proof fn law_stop_disables_restart_policy<R>(
    node: PreparedNode,
    s: LoopState<R>,
    finished: NodeProcessFinished<R>,
    restart_disabled: bool,
    now: Instant,
)
    requires
        s.phase is Running,
    ensures
        ({
            let event = LoopEvent::Finished { finished, restart_disabled, now };
            let asked = transition(node, s, LoopEvent::Command(NodeCommand::Stop)).0;
            let (stopped, effects) = transition(node, asked, event);
            &&& stopped.phase is Parked
            &&& reports(effects) == seq![report::<R>(node, finished.exit_status, false, true)]
            &&& !respawns(effects)
        }),
{
    let asked = transition(node, s, LoopEvent::Command(NodeCommand::Stop)).0;
    let effects = transition(
        node,
        asked,
        LoopEvent::Finished { finished, restart_disabled, now },
    ).1;
    lemma_reports(effects);
    lemma_reports(effects.drop_last());
    lemma_no_reports(effects.drop_last().drop_last());
}

/// A node that is parked stays so until it is started: without a start command no process is
/// spawned, whatever else happens, and the daemon hears nothing more.
pub proof fn law_parked_until_started<R>(
    node: PreparedNode,
    s: LoopState<R>,
    events: Seq<LoopEvent<R>>,
)
    requires
        s.phase is Parked,
        possible(node, s, events),
        !started(events),
    ensures
        run(node, s, events).phase is Parked || run(node, s, events).phase is Ended,
        run_effects(node, s, events) == Seq::<EffectView<R>>::empty(),
    decreases events.len(),
{
    if events.len() > 0 {
        lemma_not_started(events);
        law_parked_until_started(node, s, events.drop_last());
    }
}

/// Starting a node that was stopped re-enables its restart policy: once it is spawned it is back
/// in the state of a running node, with the same restarts on record.
pub proof fn law_start_after_stop_resumes<R>(
    node: PreparedNode,
    s: LoopState<R>,
    finished: NodeProcessFinished<R>,
    restart_disabled: bool,
    now: Instant,
    pid: u32,
)
    requires
        s.phase is Running,
    ensures
        ({
            let events = seq![
                LoopEvent::Command(NodeCommand::Stop),
                LoopEvent::Finished { finished, restart_disabled, now },
                LoopEvent::Command(NodeCommand::Start),
                LoopEvent::Respawned(NodeKind::Spawned { pid }),
            ];
            &&& possible(node, s, events)
            &&& run(node, s, events) == (LoopState::<R> {
                phase: Phase::Running,
                restart_times: s.restart_times,
                op_rx: None,
            })
        }),
{
    let e0 = LoopEvent::<R>::Command(NodeCommand::Stop);
    let e1 = LoopEvent::Finished { finished, restart_disabled, now };
    let e2 = LoopEvent::<R>::Command(NodeCommand::Start);
    let e3 = LoopEvent::<R>::Respawned(NodeKind::Spawned { pid });
    let events = seq![e0, e1, e2, e3];
    assert(events.drop_last() =~= seq![e0, e1, e2]);
    assert(seq![e0, e1, e2].drop_last() =~= seq![e0, e1]);
    assert(seq![e0, e1].drop_last() =~= seq![e0]);
    assert(seq![e0].drop_last() =~= Seq::<LoopEvent<R>>::empty());
    reveal_with_fuel(run, 5);
    reveal_with_fuel(possible, 5);
}

/// The reports among a list of effects, taken from its end.
proof fn lemma_reports<R>(effects: Seq<EffectView<R>>)
    ensures
        effects.len() == 0 ==> reports(effects) == effects,
        effects.len() > 0 ==> reports(effects) == (if effects.last() is Report {
            reports(effects.drop_last()).push(effects.last())
        } else {
            reports(effects.drop_last())
        }),
{
    reveal(Seq::filter);
}

/// A list of effects holds no report if none of its elements is one.
proof fn lemma_no_reports<R>(effects: Seq<EffectView<R>>)
    requires
        forall|i: int| 0 <= i < effects.len() ==> !((#[trigger] effects[i]) is Report),
    ensures
        reports(effects) == Seq::<EffectView<R>>::empty(),
    decreases effects.len(),
{
    lemma_reports(effects);
    if effects.len() > 0 {
        lemma_no_reports(effects.drop_last());
    }
}

/// The one report of a list is all that is found.
proof fn lemma_one_report<R>(
    before: Seq<EffectView<R>>,
    told: EffectView<R>,
    after: Seq<EffectView<R>>,
)
    requires
        told is Report,
        forall|i: int| 0 <= i < before.len() ==> !((#[trigger] before[i]) is Report),
        forall|i: int| 0 <= i < after.len() ==> !((#[trigger] after[i]) is Report),
    ensures
        reports(before.push(told) + after) == seq![told],
{
    lemma_no_reports(before);
    lemma_no_reports(after);
    lemma_reports(before.push(told));
    assert(before.push(told).drop_last() =~= before);
    Seq::filter_distributes_over_add(
        before.push(told),
        after,
        |e: EffectView<R>| e is Report,
    );
    assert(Seq::<EffectView<R>>::empty().push(told) =~= seq![told]);
    assert(seq![told] + Seq::empty() =~= seq![told]);
}

/// The daemon hears of every end of a process exactly once, and what it hears is what happens: a
/// node is said to restart exactly if the loop goes on to restart it, and to be stopped by hand
/// exactly if it is parked.
pub proof fn law_reports_are_honest<R>(
    node: PreparedNode,
    s: LoopState<R>,
    finished: NodeProcessFinished<R>,
    restart_disabled: bool,
    now: Instant,
)
    requires
        accepts(s.phase, LoopEvent::Finished { finished, restart_disabled, now }),
    ensures
        ({
            let event = LoopEvent::Finished { finished, restart_disabled, now };
            let (next, effects) = transition(node, s, event);
            reports(effects) == seq![
                report::<R>(
                    node,
                    finished.exit_status,
                    next.phase is Delaying || next.phase is Checking,
                    next.phase is Parked,
                ),
            ]
        }),
{
    let (next, effects) = transition(
        node,
        s,
        LoopEvent::Finished { finished, restart_disabled, now },
    );
    if s.phase is Stopping {
        lemma_one_report(
            Seq::empty(),
            report::<R>(node, finished.exit_status, false, true),
            effects.skip(1),
        );
        assert(effects =~= Seq::empty().push(effects[0]) + effects.skip(1));
    } else {
        lemma_exit_report(node, s, finished, restart_disabled, now);
    }
}

/// What is done about the end of a process that was not stopped by hand holds one report.
proof fn lemma_exit_report<R>(
    node: PreparedNode,
    s: LoopState<R>,
    finished: NodeProcessFinished<R>,
    restart_disabled: bool,
    now: Instant,
)
    ensures
        ({
            let (next, effects) = after_exit(node, s, finished, restart_disabled, now);
            reports(effects) == seq![
                report::<R>(node, finished.exit_status, !(next.phase is Ended), false),
            ]
        }),
{
    let success = finished.exit_status is Success;
    let restart = restarts(node, s.restart_times, success, restart_disabled, now);
    let refused = refusal::<R>(node, s.restart_times, success, restart_disabled, now);
    let traced = failure_trace::<R>(node, finished.exit_status);
    let told = report::<R>(node, finished.exit_status, restart, false);
    let after = if restart && node.delay_secs() > 0 {
        seq![log(LogLevel::Info, delay_message(node.delay_secs()))]
    } else {
        Seq::empty()
    };
    assert(refused.len() == 0 || refused.len() == 1 && !(refused[0] is Report));
    assert(traced.len() == 0 || traced.len() == 1 && !(traced[0] is Report));
    assert(after_exit(node, s, finished, restart_disabled, now).1 == (refused + traced).push(told)
        + after) by {
        lemma_exit_effects(refused, traced, told, after);
    }
    lemma_one_report(refused + traced, told, after);
}

proof fn lemma_exit_effects<R>(
    refused: Seq<EffectView<R>>,
    traced: Seq<EffectView<R>>,
    told: EffectView<R>,
    after: Seq<EffectView<R>>,
)
    ensures
        after.len() == 0 ==> refused + traced + seq![told] == (refused + traced).push(told) + after,
        after.len() == 1 ==> (refused + traced + seq![told]).push(after[0]) == (refused
            + traced).push(told) + after,
{
}

/// A process is spawned again in two cases only: a node that was stopped is started, or the last
/// look before an automatic restart finds restarts enabled. The new process gets the receiver that
/// the last one left behind.
pub proof fn law_respawn_is_asked_for<R>(
    node: PreparedNode,
    s: LoopState<R>,
    event: LoopEvent<R>,
)
    requires
        accepts(s.phase, event),
        respawns(transition(node, s, event).1),
    ensures
        ({
            ||| s.phase == (Phase::Parked { resume: Resume::Respawn }) && event == LoopEvent::<
                R,
            >::Command(NodeCommand::Start)
            ||| s.phase is Checking && event == LoopEvent::<R>::RestartDisabled(false)
        }),
        transition(node, s, event).0.phase is Respawning,
        transition(node, s, event).1.last() == EffectView::Respawn(s.op_rx->0),
{
    let (next, effects) = transition(node, s, event);
    let i = choose|i: int| 0 <= i < effects.len() && #[trigger] effects[i] is Respawn;
    if event is Finished && (s.phase is Running || s.phase is Killing) {
        let finished = event->finished;
        let success = finished.exit_status is Success;
        let told = refusal::<R>(
            node,
            s.restart_times,
            success,
            event->restart_disabled,
            event->now,
        );
        assert(!(effects[i] is Respawn)) by {
            assert(told.len() <= 1);
        }
    }
}

/// While restarts are disabled no process that ended on its own or was killed is replaced.
pub proof fn law_no_restart_while_disabled<R>(
    node: PreparedNode,
    s: LoopState<R>,
    finished: NodeProcessFinished<R>,
    now: Instant,
)
    requires
        s.phase is Running || s.phase is Killing,
    ensures
        transition(
            node,
            s,
            LoopEvent::Finished { finished, restart_disabled: true, now },
        ).0.phase is Ended,
{
}

/// A node without a rate limit is restarted as often as its policy asks for it.
pub proof fn law_unlimited_without_start_limit(
    node: PreparedNode,
    times: Seq<Instant>,
    success: bool,
    restart_disabled: bool,
    now: Instant,
)
    requires
        node.limit() is None,
    ensures
        restarts(node, times, success, restart_disabled, now) == eligible(
            node,
            success,
            restart_disabled,
        ),
{
}

/// Two lists of effects without a respawn hold none together.
proof fn lemma_no_respawn<R>(earlier: Seq<EffectView<R>>, effects: Seq<EffectView<R>>)
    requires
        !respawns(earlier),
        !respawns(effects),
    ensures
        !respawns(earlier + effects),
{
    let all = earlier + effects;
    if respawns(all) {
        let i = choose|i: int| 0 <= i < all.len() && #[trigger] all[i] is Respawn;
        if i < earlier.len() {
            assert(earlier[i] is Respawn);
        } else {
            assert(effects[i - earlier.len()] is Respawn);
        }
    }
}

/// A node whose policy is never to restart is not respawned unless it is started by hand.
pub proof fn law_never_policy_never_respawns<R>(node: PreparedNode, events: Seq<LoopEvent<R>>)
    requires
        node.policy() == RestartPolicy::Never,
        possible(node, initial::<R>(), events),
        !started(events),
    ensures
        !respawns(run_effects(node, initial::<R>(), events)),
        ({
            let phase = run(node, initial::<R>(), events).phase;
            ||| phase is Running
            ||| phase is Stopping
            ||| phase is Killing
            ||| phase is Parked
            ||| phase is Ended
        }),
    decreases events.len(),
{
    if events.len() > 0 {
        lemma_not_started(events);
        let before = events.drop_last();
        law_never_policy_never_respawns(node, before);
        let s = run(node, initial::<R>(), before);
        let effects = transition(node, s, events.last()).1;
        if respawns(effects) {
            law_respawn_is_asked_for(node, s, events.last());
        }
        lemma_no_respawn(run_effects(node, initial::<R>(), before), effects);
    }
}

/// The delay before an automatic restart is kept: unless it runs out or the node is started by hand,
/// no process is spawned.
pub proof fn law_delay_is_kept<R>(
    node: PreparedNode,
    s: LoopState<R>,
    events: Seq<LoopEvent<R>>,
)
    requires
        s.phase is Delaying,
        possible(node, s, events),
        !started(events),
        forall|i: int| 0 <= i < events.len() ==> !((#[trigger] events[i]) is DelayElapsed),
    ensures
        !respawns(run_effects(node, s, events)),
        ({
            let phase = run(node, s, events).phase;
            phase is Delaying || phase is Parked || phase is Ended
        }),
    decreases events.len(),
{
    if events.len() > 0 {
        lemma_not_started(events);
        let before = events.drop_last();
        assert(!(events[events.len() - 1] is DelayElapsed));
        assert forall|i: int| 0 <= i < before.len() implies !((
        #[trigger] before[i]) is DelayElapsed) by {
            assert(before[i] == events[i]);
        }
        law_delay_is_kept(node, s, before);
        let effects = transition(node, run(node, s, before), events.last()).1;
        lemma_no_respawn(run_effects(node, s, before), effects);
    }
}

/// Starting a node that waits for its restart spawns it without waiting for the delay, unless
/// restarts are disabled.
pub proof fn law_start_skips_delay<R>(node: PreparedNode, s: LoopState<R>)
    requires
        s.phase is Delaying,
    ensures
        ({
            let hurried = transition(node, s, LoopEvent::Command(NodeCommand::Start)).0;
            let (next, effects) = transition(node, hurried, LoopEvent::RestartDisabled(false));
            &&& accepts(hurried.phase, LoopEvent::<R>::RestartDisabled(false))
            &&& next.phase is Respawning
            &&& effects.last() == EffectView::Respawn(s.op_rx->0)
        }),
{
}

/// The receiver of process operations is at hand whenever the node can be respawned.
pub proof fn law_receiver_always_kept<R>(node: PreparedNode, events: Seq<LoopEvent<R>>)
    requires
        possible(node, initial::<R>(), events),
    ensures
        receiver_kept(run(node, initial::<R>(), events)),
    decreases events.len(),
{
    if events.len() > 0 {
        law_receiver_always_kept(node, events.drop_last());
    }
}

/// A loop that is over takes in no further event.
pub proof fn law_ended_is_final<R>(event: LoopEvent<R>)
    ensures
        !accepts(Phase::Ended, event),
{
}

/// Whether the clock that is read at the ends of processes never goes back.
pub open spec fn clock_in_order<R>(events: Seq<LoopEvent<R>>) -> bool {
    forall|i: int, j: int|
        0 <= i <= j < events.len() && (#[trigger] events[i]) is Finished && (
        #[trigger] events[j]) is Finished ==> events[i]->now@ <= events[j]->now@
}

/// When the ends of processes came for which the daemon was told that the node restarts.
pub open spec fn automatic_restarts<R>(
    node: PreparedNode,
    s: LoopState<R>,
    events: Seq<LoopEvent<R>>,
) -> Seq<Instant>
    decreases events.len(),
{
    if events.len() == 0 {
        Seq::empty()
    } else {
        let earlier = automatic_restarts(node, s, events.drop_last());
        let before = run(node, s, events.drop_last());
        match (before.phase, events.last()) {
            (
                Phase::Running | Phase::Killing,
                LoopEvent::Finished { finished, restart_disabled, now },
            ) => if restarts(
                node,
                before.restart_times,
                finished.exit_status is Success,
                restart_disabled,
                now,
            ) {
                earlier.push(now)
            } else {
                earlier
            },
            _ => earlier,
        }
    }
}

/// When the ends of processes came that were up to the rate limit.
spec fn limited_exits<R>(
    node: PreparedNode,
    s: LoopState<R>,
    events: Seq<LoopEvent<R>>,
) -> Seq<Instant>
    decreases events.len(),
{
    if events.len() == 0 {
        Seq::empty()
    } else {
        let earlier = limited_exits(node, s, events.drop_last());
        match (run(node, s, events.drop_last()).phase, events.last()) {
            (
                Phase::Running | Phase::Killing,
                LoopEvent::Finished { finished, restart_disabled, now },
            ) => if eligible(node, finished.exit_status is Success, restart_disabled) {
                earlier.push(now)
            } else {
                earlier
            },
            _ => earlier,
        }
    }
}

/// The loop feeds the rate limiter with these exits and with nothing else.
proof fn lemma_loop_runs_limiter<R>(
    node: PreparedNode,
    events: Seq<LoopEvent<R>>,
    burst: u32,
    secs: u64,
)
    requires
        node.limit() == Some((burst, secs)),
        possible(node, initial::<R>(), events),
        clock_in_order(events),
    ensures
        limiter_run(
            limited_exits(node, initial::<R>(), events),
            burst,
            (secs * NANOS_PER_SEC) as nat,
        ) == (
            run(node, initial::<R>(), events).restart_times,
            automatic_restarts(node, initial::<R>(), events),
        ),
        in_order(limited_exits(node, initial::<R>(), events)),
        forall|i: int|
            0 <= i < limited_exits(node, initial::<R>(), events).len() ==> exists|k: int|
                0 <= k < events.len() && (#[trigger] events[k]) is Finished && events[k]->now
                    == #[trigger] limited_exits(node, initial::<R>(), events)[i],
    decreases events.len(),
{
    if events.len() > 0 {
        let before = events.drop_last();
        let s = run(node, initial::<R>(), before);
        assert forall|i: int, j: int|
            0 <= i <= j < before.len() && (#[trigger] before[i]) is Finished && (
            #[trigger] before[j]) is Finished implies before[i]->now@ <= before[j]->now@ by {
            assert(before[i] == events[i] && before[j] == events[j]);
        }
        lemma_loop_runs_limiter(node, before, burst, secs);
        let earlier = limited_exits(node, initial::<R>(), before);
        let all = limited_exits(node, initial::<R>(), events);
        assert forall|i: int| 0 <= i < earlier.len() implies exists|k: int|
            0 <= k < events.len() - 1 && (#[trigger] events[k]) is Finished && events[k]->now
                == #[trigger] earlier[i] by {
            let k = choose|k: int|
                0 <= k < before.len() && (#[trigger] before[k]) is Finished && before[k]->now
                    == earlier[i];
            assert(events[k] == before[k]);
        }
        if all != earlier {
            let now = events.last()->now;
            assert(all == earlier.push(now));
            assert(all.drop_last() == earlier);
            assert(events[events.len() - 1] is Finished);
            assert forall|i: int, j: int| 0 <= i <= j < all.len() implies all[i]@ <= all[j]@ by {
                if j == earlier.len() && i < j {
                    let k = choose|k: int|
                        0 <= k < events.len() - 1 && (#[trigger] events[k]) is Finished
                            && events[k]->now == earlier[i];
                    assert(events[k]->now@ <= events[events.len() - 1]->now@);
                }
            }
            assert forall|i: int| 0 <= i < all.len() implies exists|k: int|
                0 <= k < events.len() && (#[trigger] events[k]) is Finished && events[k]->now
                    == #[trigger] all[i] by {
                if i == earlier.len() {
                    assert(events[events.len() - 1]->now == all[i]);
                } else {
                    assert(all[i] == earlier[i]);
                }
            }
        } else {
            assert(run(node, initial::<R>(), events).restart_times == s.restart_times);
        }
    }
}

/// A node with a rate limit of `burst` restarts within `secs` seconds is restarted on its own at
/// most `burst` times within any window of that length, whatever happens to it, including manual
/// stops and starts.
pub proof fn law_restart_rate_is_limited<R>(
    node: PreparedNode,
    events: Seq<LoopEvent<R>>,
    burst: u32,
    secs: u64,
    start: nat,
)
    requires
        node.limit() == Some((burst, secs)),
        possible(node, initial::<R>(), events),
        clock_in_order(events),
    ensures
        automatic_restarts(node, initial::<R>(), events).filter(
            |at: Instant| in_window(at, start, (secs * NANOS_PER_SEC) as nat),
        ).len() <= burst,
{
    lemma_loop_runs_limiter(node, events, burst, secs);
    law_at_most_burst_in_any_window(
        limited_exits(node, initial::<R>(), events),
        burst,
        (secs * NANOS_PER_SEC) as nat,
        start,
    );
}

/// Whether an event is a command that asks for what is already the case or under way: a start of a
/// node that runs, a kill while the delay before a restart runs, a stop or kill of a parked node.
pub open spec fn idle<R>(phase: Phase, event: LoopEvent<R>) -> bool {
    match (phase, event) {
        (Phase::Running, LoopEvent::Command(NodeCommand::Start)) => true,
        (Phase::Delaying { .. }, LoopEvent::Command(NodeCommand::Kill)) => true,
        (
            Phase::Parked { .. },
            LoopEvent::Command(NodeCommand::Stop) | LoopEvent::Command(NodeCommand::Kill),
        ) => true,
        _ => false,
    }
}

/// A course of events without its idle commands.
pub open spec fn heeded<R>(
    node: PreparedNode,
    s: LoopState<R>,
    events: Seq<LoopEvent<R>>,
) -> Seq<LoopEvent<R>>
    decreases events.len(),
{
    if events.len() == 0 {
        events
    } else {
        let before = events.drop_last();
        if idle(run(node, s, before).phase, events.last()) {
            heeded(node, s, before)
        } else {
            heeded(node, s, before).push(events.last())
        }
    }
}

/// Idle commands can be left out of a course of events: it stays possible, leads to the same state,
/// and the same is done in it.
pub proof fn law_idle_commands_change_nothing<R>(
    node: PreparedNode,
    s: LoopState<R>,
    events: Seq<LoopEvent<R>>,
)
    ensures
        run(node, s, heeded(node, s, events)) == run(node, s, events),
        run_effects(node, s, heeded(node, s, events)) == run_effects(node, s, events),
        possible(node, s, heeded(node, s, events)) == possible(node, s, events),
    decreases events.len(),
{
    if events.len() > 0 {
        let before = events.drop_last();
        law_idle_commands_change_nothing(node, s, before);
        let kept = heeded(node, s, before);
        let all = heeded(node, s, events);
        if idle(run(node, s, before).phase, events.last()) {
            assert(run_effects(node, s, events) =~= run_effects(node, s, before));
        } else {
            assert(all.drop_last() =~= kept);
            assert(all.last() == events.last());
        }
    }
}

/// Two courses of events that differ only in idle commands, such as extra kills during the delay
/// before a restart, lead to the same state, and the same is done in them.
pub proof fn law_courses_differ_only_in_what_is_heeded<R>(
    node: PreparedNode,
    s: LoopState<R>,
    one: Seq<LoopEvent<R>>,
    other: Seq<LoopEvent<R>>,
)
    requires
        heeded(node, s, one) == heeded(node, s, other),
    ensures
        run(node, s, one) == run(node, s, other),
        run_effects(node, s, one) == run_effects(node, s, other),
        possible(node, s, one) == possible(node, s, other),
{
    law_idle_commands_change_nothing(node, s, one);
    law_idle_commands_change_nothing(node, s, other);
}

/// An idle command makes no difference wherever it comes: the course of events with it and the one
/// without it lead to the same state, and the same is done in them. In particular a kill during the
/// delay neither shortens nor restarts the delay nor cancels the restart.
pub proof fn law_extra_idle_command_changes_nothing<R>(
    node: PreparedNode,
    s: LoopState<R>,
    before: Seq<LoopEvent<R>>,
    extra: LoopEvent<R>,
    after: Seq<LoopEvent<R>>,
)
    requires
        idle(run(node, s, before).phase, extra),
    ensures
        run(node, s, before.push(extra) + after) == run(node, s, before + after),
        run_effects(node, s, before.push(extra) + after) == run_effects(node, s, before + after),
        possible(node, s, before.push(extra) + after) == possible(node, s, before + after),
    decreases after.len(),
{
    let with = before.push(extra) + after;
    let without = before + after;
    if after.len() == 0 {
        assert(with =~= before.push(extra));
        assert(without =~= before);
        assert(with.drop_last() =~= before);
        assert(run_effects(node, s, with) =~= run_effects(node, s, before));
    } else {
        law_extra_idle_command_changes_nothing(node, s, before, extra, after.drop_last());
        assert(with.drop_last() =~= before.push(extra) + after.drop_last());
        assert(without.drop_last() =~= before + after.drop_last());
        assert(with.last() == without.last());
    }
}

/// A course of events without its kill commands.
pub open spec fn without_kills<R>(events: Seq<LoopEvent<R>>) -> Seq<LoopEvent<R>>
    decreases events.len(),
{
    if events.len() == 0 {
        events
    } else if events.last() == LoopEvent::<R>::Command(NodeCommand::Kill) {
        without_kills(events.drop_last())
    } else {
        without_kills(events.drop_last()).push(events.last())
    }
}

/// Whether a new process is reported to run among the events.
pub open spec fn respawned<R>(events: Seq<LoopEvent<R>>) -> bool {
    exists|i: int| 0 <= i < events.len() && #[trigger] events[i] is Respawned
}

/// In a course of events from the delay before a restart on, up to the report that a new process
/// runs, no kill makes a difference.
proof fn lemma_kills_before_respawn<R>(
    node: PreparedNode,
    s: LoopState<R>,
    events: Seq<LoopEvent<R>>,
)
    requires
        s.phase is Delaying,
        possible(node, s, events),
        !respawned(events),
    ensures
        run(node, s, without_kills(events)) == run(node, s, events),
        run_effects(node, s, without_kills(events)) == run_effects(node, s, events),
        possible(node, s, without_kills(events)),
        ({
            let phase = run(node, s, events).phase;
            ||| phase is Delaying
            ||| phase is Parked
            ||| phase is Checking
            ||| phase is Respawning
            ||| phase is Ended
        }),
    decreases events.len(),
{
    if events.len() > 0 {
        let before = events.drop_last();
        assert forall|i: int| 0 <= i < before.len() implies !(#[trigger] before[i] is Respawned) by {
            assert(before[i] == events[i]);
        }
        assert(!(events[events.len() - 1] is Respawned));
        lemma_kills_before_respawn(node, s, before);
        let all = without_kills(events);
        if events.last() == LoopEvent::<R>::Command(NodeCommand::Kill) {
            assert(run_effects(node, s, events) =~= run_effects(node, s, before));
        } else {
            assert(all.drop_last() =~= without_kills(before));
            assert(all.last() == events.last());
        }
    }
}

/// After the end of a process that is followed by a delay, two courses of events that differ only in
/// kill commands, up to the report that a new process runs, lead to the same state, and the same is
/// done in them: a kill neither shortens nor restarts the delay nor cancels the restart.
pub proof fn law_kills_in_the_delay_change_nothing<R>(
    node: PreparedNode,
    s: LoopState<R>,
    finished: NodeProcessFinished<R>,
    restart_disabled: bool,
    now: Instant,
    one: Seq<LoopEvent<R>>,
    other: Seq<LoopEvent<R>>,
)
    requires
        after_exit(node, s, finished, restart_disabled, now).0.phase is Delaying,
        possible(node, after_exit(node, s, finished, restart_disabled, now).0, one),
        possible(node, after_exit(node, s, finished, restart_disabled, now).0, other),
        !respawned(one),
        !respawned(other),
        without_kills(one) == without_kills(other),
    ensures
        ({
            let exited = after_exit(node, s, finished, restart_disabled, now).0;
            &&& run(node, exited, one) == run(node, exited, other)
            &&& run_effects(node, exited, one) == run_effects(node, exited, other)
        }),
{
    let exited = after_exit(node, s, finished, restart_disabled, now).0;
    lemma_kills_before_respawn(node, exited, one);
    lemma_kills_before_respawn(node, exited, other);
}

/// The process id that is on record after a list of effects. `first` was on record before.
pub open spec fn stored_pid<R>(first: u32, effects: Seq<EffectView<R>>) -> u32
    decreases effects.len(),
{
    if effects.len() == 0 {
        first
    } else {
        match effects.last() {
            EffectView::StorePid(pid) => pid,
            _ => stored_pid(first, effects.drop_last()),
        }
    }
}

/// The id of the process that was started last in a course of events. `first` was started before.
pub open spec fn latest_pid<R>(first: u32, events: Seq<LoopEvent<R>>) -> u32
    decreases events.len(),
{
    if events.len() == 0 {
        first
    } else {
        match events.last() {
            LoopEvent::Respawned(NodeKind::Spawned { pid }) => pid,
            _ => latest_pid(first, events.drop_last()),
        }
    }
}

/// Effects that store no process id leave the one on record alone.
proof fn lemma_stored_pid<R>(first: u32, earlier: Seq<EffectView<R>>, effects: Seq<EffectView<R>>)
    requires
        forall|i: int| 0 <= i < effects.len() ==> !((#[trigger] effects[i]) is StorePid),
    ensures
        stored_pid(first, earlier + effects) == stored_pid(first, earlier),
    decreases effects.len(),
{
    if effects.len() == 0 {
        assert(earlier + effects =~= earlier);
    } else {
        lemma_stored_pid(first, earlier, effects.drop_last());
        assert((earlier + effects).drop_last() =~= earlier + effects.drop_last());
        assert((earlier + effects).last() == effects.last());
        assert(!(effects[effects.len() - 1] is StorePid));
    }
}

/// What is done about the end of a process that was not stopped by hand stores no process id.
proof fn lemma_exit_stores_no_pid<R>(
    node: PreparedNode,
    s: LoopState<R>,
    finished: NodeProcessFinished<R>,
    restart_disabled: bool,
    now: Instant,
)
    ensures
        ({
            let effects = after_exit(node, s, finished, restart_disabled, now).1;
            forall|i: int| 0 <= i < effects.len() ==> !((#[trigger] effects[i]) is StorePid)
        }),
{
    let success = finished.exit_status is Success;
    let refused = refusal::<R>(node, s.restart_times, success, restart_disabled, now);
    assert(refused.len() == 0 || refused.len() == 1 && !(refused[0] is StorePid));
}

/// However often a node is respawned, on its own or by hand, the process id on record is that of the
/// process that was started last.
pub proof fn law_stored_pid_is_the_latest<R>(
    node: PreparedNode,
    s: LoopState<R>,
    events: Seq<LoopEvent<R>>,
    first: u32,
)
    requires
        possible(node, s, events),
    ensures
        stored_pid(first, run_effects(node, s, events)) == latest_pid(first, events),
    decreases events.len(),
{
    if events.len() > 0 {
        let before = events.drop_last();
        law_stored_pid_is_the_latest(node, s, before, first);
        let state = run(node, s, before);
        let earlier = run_effects(node, s, before);
        let effects = transition(node, state, events.last()).1;
        match events.last() {
            LoopEvent::Respawned(NodeKind::Spawned { pid }) => {
                assert((earlier + effects).last() == EffectView::<R>::StorePid(pid));
            },
            LoopEvent::Finished { finished, restart_disabled, now } => {
                lemma_exit_stores_no_pid(node, state, finished, restart_disabled, now);
                lemma_stored_pid(first, earlier, effects);
            },
            _ => {
                lemma_stored_pid(first, earlier, effects);
            },
        }
    }
}

/// Whether restarts are found disabled at every look.
pub open spec fn disabled_throughout<R>(events: Seq<LoopEvent<R>>) -> bool {
    forall|i: int|
        0 <= i < events.len() ==> (match #[trigger] events[i] {
            LoopEvent::Finished { restart_disabled, .. } => restart_disabled,
            LoopEvent::RestartDisabled(disabled) => disabled,
            _ => true,
        })
}

/// Disabling restarts stops every automatic restart that has not been carried out: wherever the loop
/// stands, while restarts stay disabled no process is spawned unless the node is started by hand.
pub proof fn law_disabling_stops_automatic_restarts<R>(
    node: PreparedNode,
    s: LoopState<R>,
    events: Seq<LoopEvent<R>>,
)
    requires
        possible(node, s, events),
        disabled_throughout(events),
        !started(events),
    ensures
        !respawns(run_effects(node, s, events)),
    decreases events.len(),
{
    if events.len() > 0 {
        lemma_not_started(events);
        let before = events.drop_last();
        assert forall|i: int| 0 <= i < before.len() implies (match #[trigger] before[i] {
            LoopEvent::Finished { restart_disabled, .. } => restart_disabled,
            LoopEvent::RestartDisabled(disabled) => disabled,
            _ => true,
        }) by {
            assert(before[i] == events[i]);
        }
        law_disabling_stops_automatic_restarts(node, s, before);
        let state = run(node, s, before);
        let effects = transition(node, state, events.last()).1;
        if respawns(effects) {
            law_respawn_is_asked_for(node, state, events.last());
            assert(events[events.len() - 1] == LoopEvent::<R>::RestartDisabled(false));
        }
        lemma_no_respawn(run_effects(node, s, before), effects);
    }
}

/// A stop during the delay before a restart holds: however the process ended, the node is parked, the
/// daemon hears exactly once that it was stopped by hand and is not restarted, and afterwards no process is
/// spawned without a start command, even if the delay would have run out.
pub proof fn law_stop_during_the_delay_holds<R>(
    node: PreparedNode,
    s: LoopState<R>,
    events: Seq<LoopEvent<R>>,
)
    requires
        s.phase is Delaying,
        possible(node, transition(node, s, LoopEvent::Command(NodeCommand::Stop)).0, events),
        !started(events),
    ensures
        ({
            let (stopped, effects) = transition(node, s, LoopEvent::Command(NodeCommand::Stop));
            &&& stopped.phase is Parked
            &&& reports(effects) == seq![
                EffectView::<R>::Report {
                    dataflow_id: node.dataflow_id,
                    node_id: node.node.id@,
                    exit_status: NodeExitStatus::Success,
                    dynamic_node: node.node.dynamic,
                    restart: false,
                    manually_stopped: true,
                },
            ]
            &&& !respawns(effects)
            &&& run_effects(node, stopped, events) == Seq::<EffectView<R>>::empty()
            &&& run(node, stopped, events).phase is Parked || run(
                node,
                stopped,
                events,
            ).phase is Ended
        }),
{
    let (stopped, effects) = transition(node, s, LoopEvent::<R>::Command(NodeCommand::Stop));
    law_parked_until_started(node, stopped, events);
    lemma_one_report(effects.take(1), effects[1], Seq::empty());
    assert(effects.take(1).push(effects[1]) + Seq::empty() =~= effects);
}

/// Whether the daemon is told among the effects that the node restarts.
pub open spec fn announces_restart<R>(effects: Seq<EffectView<R>>) -> bool {
    exists|i: int|
        0 <= i < effects.len() && (#[trigger] effects[i] matches EffectView::Report {
            restart,
            ..
        } && restart)
}

/// When the ends of processes came at which the daemon was told that the node restarts.
pub open spec fn announced_restarts<R>(
    node: PreparedNode,
    s: LoopState<R>,
    events: Seq<LoopEvent<R>>,
) -> Seq<Instant>
    decreases events.len(),
{
    if events.len() == 0 {
        Seq::empty()
    } else {
        let earlier = announced_restarts(node, s, events.drop_last());
        let effects = transition(node, run(node, s, events.drop_last()), events.last()).1;
        match events.last() {
            LoopEvent::Finished { now, .. } => if announces_restart(effects) {
                earlier.push(now)
            } else {
                earlier
            },
            _ => earlier,
        }
    }
}

/// What the daemon is told about the end of a process is whether the node is restarted.
proof fn lemma_exit_announces<R>(
    node: PreparedNode,
    s: LoopState<R>,
    finished: NodeProcessFinished<R>,
    restart_disabled: bool,
    now: Instant,
)
    ensures
        announces_restart(after_exit(node, s, finished, restart_disabled, now).1) == restarts(
            node,
            s.restart_times,
            finished.exit_status is Success,
            restart_disabled,
            now,
        ),
{
    let effects = after_exit(node, s, finished, restart_disabled, now).1;
    let restart = restarts(
        node,
        s.restart_times,
        finished.exit_status is Success,
        restart_disabled,
        now,
    );
    lemma_exit_report(node, s, finished, restart_disabled, now);
    let told = report::<R>(node, finished.exit_status, restart, false);
    lemma_reported(effects, told);
}

/// The one report of a list is an element of it, and no other element is a report.
proof fn lemma_reported<R>(effects: Seq<EffectView<R>>, told: EffectView<R>)
    requires
        reports(effects) == seq![told],
    ensures
        exists|i: int| 0 <= i < effects.len() && #[trigger] effects[i] == told,
        forall|i: int| 0 <= i < effects.len() && (#[trigger] effects[i]) is Report ==> effects[i]
            == told,
{
    let found = |e: EffectView<R>| e is Report;
    assert(reports(effects)[0] == told);
    effects.lemma_filter_contains_rev(found, told);
    assert forall|i: int| 0 <= i < effects.len() && (#[trigger] effects[i]) is Report implies effects[i]
        == told by {
        effects.lemma_filter_contains(found, i);
    }
}

/// The exits that count as automatic restarts are exactly those of which the daemon is told that the node
/// restarts.
pub proof fn law_automatic_restarts_are_announced<R>(
    node: PreparedNode,
    s: LoopState<R>,
    events: Seq<LoopEvent<R>>,
)
    requires
        possible(node, s, events),
    ensures
        automatic_restarts(node, s, events) == announced_restarts(node, s, events),
    decreases events.len(),
{
    if events.len() > 0 {
        let before = run(node, s, events.drop_last());
        law_automatic_restarts_are_announced(node, s, events.drop_last());
        if let LoopEvent::Finished { finished, restart_disabled, now } = events.last() {
            if before.phase is Running || before.phase is Killing {
                lemma_exit_announces(node, before, finished, restart_disabled, now);
            }
        }
    }
}

/// A node whose descriptor permits `burst` restarts within `secs` seconds, whatever its policy and delay
/// are, is said to restart at most `burst` times within any window of that length, whatever happens to it.
pub proof fn law_descriptor_limits_the_restart_rate<R>(
    node: PreparedNode,
    events: Seq<LoopEvent<R>>,
    burst: u32,
    secs: u64,
    start: nat,
)
    requires
        sets_limit(node, burst, secs),
        possible(node, initial::<R>(), events),
        clock_in_order(events),
    ensures
        announced_restarts(node, initial::<R>(), events).filter(
            |at: Instant| start <= at@ < start + secs * 1_000_000_000,
        ).len() <= burst,
{
    law_restart_rate_is_limited(node, events, burst, secs, start);
    law_automatic_restarts_are_announced(node, initial::<R>(), events);
    let inside = |at: Instant| in_window(at, start, (secs * NANOS_PER_SEC) as nat);
    let same = |at: Instant| start <= at@ < start + secs * 1_000_000_000;
    let times = announced_restarts(node, initial::<R>(), events);
    assert forall|i: int| 0 <= i < times.len() implies inside(#[trigger] times[i]) == same(
        times[i],
    ) by {}
    lemma_filter_same(times, inside, same);
}

/// A restart that is asked for takes place: for every exit status and in every course of events, a node
/// without a rate limit is restarted whenever its descriptor asks for it and restarts are not disabled, and
/// only then.
pub proof fn law_unlimited_node_restarts_when_asked<R>(
    node: PreparedNode,
    s: LoopState<R>,
    finished: NodeProcessFinished<R>,
    restart_disabled: bool,
    now: Instant,
)
    requires
        s.phase is Running || s.phase is Killing,
        forall|burst: u32, secs: u64| !sets_limit(node, burst, secs),
    ensures
        ({
            let event = LoopEvent::Finished { finished, restart_disabled, now };
            let (next, effects) = transition(node, s, event);
            let restart = asks_for_restart(node, finished.exit_status)
                && !restart_disabled;
            &&& restart <==> next.phase is Delaying || next.phase is Checking
            &&& restart <==> announces_restart(effects)
            &&& !restart <==> next.phase is Ended
        }),
{
    if let Some((burst, secs)) = node.limit() {
        assert(sets_limit(node, burst, secs));
    }
    lemma_exit_announces(node, s, finished, restart_disabled, now);
}

/// In every course of events, a node with a rate limit is restarted exactly if its descriptor asks for it
/// after this exit, restarts are not disabled, and fewer than `burst` of the restarts that the daemon was
/// told of are younger than the window.
pub proof fn law_limited_node_restarts_while_there_is_room<R>(
    node: PreparedNode,
    events: Seq<LoopEvent<R>>,
    finished: NodeProcessFinished<R>,
    restart_disabled: bool,
    now: Instant,
    burst: u32,
    secs: u64,
)
    requires
        sets_limit(node, burst, secs),
        possible(node, initial::<R>(), events),
        run(node, initial::<R>(), events).phase is Running || run(
            node,
            initial::<R>(),
            events,
        ).phase is Killing,
        clock_in_order(events.push(LoopEvent::Finished { finished, restart_disabled, now })),
    ensures
        ({
            let event = LoopEvent::Finished { finished, restart_disabled, now };
            let (next, effects) = transition(node, run(node, initial::<R>(), events), event);
            let young = announced_restarts(node, initial::<R>(), events).filter(
                |at: Instant| at@ + secs * 1_000_000_000 > now@,
            );
            let restart = asks_for_restart(node, finished.exit_status)
                && !restart_disabled && young.len() < burst;
            &&& restart <==> next.phase is Delaying || next.phase is Checking
            &&& restart <==> announces_restart(effects)
            &&& !restart <==> next.phase is Ended
        }),
{
    let s = run(node, initial::<R>(), events);
    let interval = (secs * NANOS_PER_SEC) as nat;
    let event = LoopEvent::Finished { finished, restart_disabled, now };
    let all = events.push(event);
    assert forall|i: int, j: int|
        0 <= i <= j < events.len() && (#[trigger] events[i]) is Finished && (
        #[trigger] events[j]) is Finished implies events[i]->now@ <= events[j]->now@ by {
        assert(all[i] == events[i] && all[j] == events[j]);
    }
    lemma_loop_runs_limiter(node, events, burst, secs);
    let exits = limited_exits(node, initial::<R>(), events);
    assert forall|i: int, j: int| 0 <= i <= j < exits.push(now).len() implies exits.push(now)[i]@
        <= exits.push(now)[j]@ by {
        if j == exits.len() && i < j {
            let k = choose|k: int|
                0 <= k < events.len() && (#[trigger] events[k]) is Finished && events[k]->now
                    == exits[i];
            assert(all[k] == events[k] && all[events.len() as int] == event);
            assert(all[k]->now@ <= all[events.len() as int]->now@);
        }
    }
    law_denied_exactly_if_burst_are_recent(exits, now, burst, interval);
    law_automatic_restarts_are_announced(node, initial::<R>(), events);
    lemma_exit_announces(node, s, finished, restart_disabled, now);
    let restarts_so_far = announced_restarts(node, initial::<R>(), events);
    let live = |at: Instant| !expired(at, now, interval);
    let young = |at: Instant| at@ + secs * 1_000_000_000 > now@;
    lemma_allowed_are_attempts(exits, burst, interval);
    assert forall|i: int| 0 <= i < restarts_so_far.len() implies live(
        #[trigger] restarts_so_far[i],
    ) == young(restarts_so_far[i]) by {
        assert(limiter_run(exits, burst, interval).1[i] == restarts_so_far[i]);
        let k = choose|k: int| 0 <= k < exits.len() && #[trigger] exits[k] == restarts_so_far[i];
        assert(exits.push(now)[k]@ <= exits.push(now)[exits.len() as int]@);
    }
    lemma_filter_same(restarts_so_far, live, young);
}

} // verus!
