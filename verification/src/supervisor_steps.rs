//! What each event does to a supervised node, told by the node's descriptor.

use crate::logging::LogLevel;
use crate::node::{CoreNodeKind, NodeExitStatus, NodeKind, PreparedNode, RunningNode};
use crate::restart_limit::{law_stale_front_is_unique, lemma_pruned_is_suffix, stale_front};
use crate::supervisor::{
    accepts, after_exit, effects_view, failure_trace, limit_permits, refusal, report, restarts,
    wants_restart, Awaited, Effect, EffectView, LoopEvent, LoopState, NodeCommand,
    NodeProcessFinished, Phase, Resume, Supervisor,
};
use crate::text::decimal;
use crate::time::Instant;
use vstd::prelude::*;

verus! {

/// Whether an effect writes this line to the node's log on behalf of the daemon.
pub open spec fn writes<R>(effect: Effect<R>, level: LogLevel, message: Seq<char>) -> bool {
    effect matches Effect::Log(line) && line.level == level && line.target is Daemon
        && line.message@ == message
}

/// Whether an effect tells the daemon how a process of this node ended, and what becomes of the node.
pub open spec fn tells_daemon<R>(
    effect: Effect<R>,
    node: PreparedNode,
    exit_status: NodeExitStatus,
    restart: bool,
    manually_stopped: bool,
) -> bool {
    effect matches Effect::Report(result) && result.dataflow_id == node.dataflow_id
        && result.node_id@ == node.node.id@ && result.exit_status == exit_status
        && result.dynamic_node == node.node.dynamic && result.restart == restart
        && result.manually_stopped == manually_stopped
}

/// Whether nothing but the phase may have changed.
pub open spec fn only_phase_moved<R>(before: LoopState<R>, after: LoopState<R>) -> bool {
    after.restart_times == before.restart_times && after.op_rx == before.op_rx
}

/// The effects are what their contents say, one by one.
proof fn lemma_one_by_one<R>(effects: Seq<Effect<R>>, views: Seq<EffectView<R>>)
    requires
        effects_view(effects) == views,
    ensures
        effects.len() == views.len(),
        forall|i: int| 0 <= i < effects.len() ==> (#[trigger] effects[i])@ == views[i],
{
    assert(effects_view(effects).len() == effects.len());
    assert forall|i: int| 0 <= i < effects.len() implies (#[trigger] effects[i])@ == views[i] by {
        assert(effects_view(effects)[i] == effects[i]@);
    }
}

/// A command to a running node changes what is awaited and nothing else: after a stop or a kill only the
/// end of the process is, and a start asks for what is already the case.
pub proof fn law_commands_while_running<R>(
    supervisor: &mut Supervisor<R>,
    command: NodeCommand,
    effects: Vec<Effect<R>>,
)
    requires
        call_ensures(
            Supervisor::<R>::restart_loop,
            (supervisor, LoopEvent::Command(command)),
            effects,
        ),
        old(supervisor)@.phase is Running,
    ensures
        final(supervisor).node() == old(supervisor).node(),
        only_phase_moved(old(supervisor)@, final(supervisor)@),
        effects@.len() == 0,
        command is Stop <==> final(supervisor)@.phase is Stopping,
        command is Kill <==> final(supervisor)@.phase is Killing,
        command is Start <==> final(supervisor)@.phase is Running,
{
    lemma_one_by_one(effects@, effects_view(effects@));
}

/// A stop during the delay before a restart takes effect, however the process ended: the node is parked,
/// the stop is logged, and the daemon is told that the node was stopped by hand and is not restarted. A
/// start ends the delay, and a kill changes nothing.
pub proof fn law_commands_in_the_delay<R>(
    supervisor: &mut Supervisor<R>,
    command: NodeCommand,
    success: bool,
    effects: Vec<Effect<R>>,
)
    requires
        call_ensures(
            Supervisor::<R>::restart_loop,
            (supervisor, LoopEvent::Command(command)),
            effects,
        ),
        old(supervisor)@.phase == (Phase::Delaying { success }),
    ensures
        final(supervisor).node() == old(supervisor).node(),
        only_phase_moved(old(supervisor)@, final(supervisor)@),
        command is Stop ==> {
            &&& final(supervisor)@.phase == (Phase::Parked { resume: Resume::Check { success } })
            &&& effects@.len() == 2
            &&& writes(
                effects@[0],
                LogLevel::Info,
                "stop command received during restart delay, entering parked state"@,
            )
            &&& tells_daemon(
                effects@[1],
                old(supervisor).node(),
                NodeExitStatus::Success,
                false,
                true,
            )
        },
        command is Start ==> {
            &&& final(supervisor)@.phase == (Phase::Checking { success })
            &&& effects@.len() == 1
            &&& writes(
                effects@[0],
                LogLevel::Info,
                "start command received during restart delay, spawning immediately"@,
            )
        },
        command is Kill ==> final(supervisor)@ == old(supervisor)@ && effects@.len() == 0,
{
    lemma_one_by_one(effects@, effects_view(effects@));
}

/// A parked node takes only a start, which is logged. Where its process ended because of the stop it is
/// then respawned at once with the receiver at hand; where it was stopped during a delay the flag is
/// looked up first. Stops and kills change nothing.
pub proof fn law_commands_while_parked<R>(
    supervisor: &mut Supervisor<R>,
    command: NodeCommand,
    resume: Resume,
    effects: Vec<Effect<R>>,
)
    requires
        call_ensures(
            Supervisor::<R>::restart_loop,
            (supervisor, LoopEvent::Command(command)),
            effects,
        ),
        old(supervisor)@.phase == (Phase::Parked { resume }),
    ensures
        final(supervisor).node() == old(supervisor).node(),
        final(supervisor)@.restart_times == old(supervisor)@.restart_times,
        command is Stop || command is Kill ==> final(supervisor)@ == old(supervisor)@
            && effects@.len() == 0,
        command is Start ==> effects@.len() > 0 && writes(
            effects@[0],
            LogLevel::Info,
            "received start command, respawning node"@,
        ),
        command is Start && resume is Respawn ==> {
            &&& final(supervisor)@.phase is Respawning
            &&& final(supervisor)@.op_rx is None
            &&& effects@.len() == 2
            &&& effects@[1] == Effect::Respawn(old(supervisor)@.op_rx->0)
        },
        command is Start ==> (resume matches Resume::Check { success } ==> {
            &&& final(supervisor)@.phase == (Phase::Checking { success })
            &&& final(supervisor)@.op_rx == old(supervisor)@.op_rx
            &&& effects@.len() == 1
        }),
{
    lemma_one_by_one(effects@, effects_view(effects@));
}

/// When no more commands can come the loop ends quietly, wherever it waits for one.
pub proof fn law_closed_commands_end_the_loop<R>(
    supervisor: &mut Supervisor<R>,
    effects: Vec<Effect<R>>,
)
    requires
        call_ensures(Supervisor::<R>::restart_loop, (supervisor, LoopEvent::CommandsClosed), effects),
        old(supervisor)@.phase is Running || old(supervisor)@.phase is Delaying
            || old(supervisor)@.phase is Parked,
    ensures
        final(supervisor).node() == old(supervisor).node(),
        final(supervisor)@.phase is Ended,
        only_phase_moved(old(supervisor)@, final(supervisor)@),
        effects@.len() == 0,
{
    lemma_one_by_one(effects@, effects_view(effects@));
}

/// A process whose end cannot be observed ends the loop with an error in the log that tells what was
/// awaited.
pub proof fn law_lost_end_ends_the_loop<R>(supervisor: &mut Supervisor<R>, effects: Vec<Effect<R>>)
    requires
        call_ensures(Supervisor::<R>::restart_loop, (supervisor, LoopEvent::FinishLost), effects),
        old(supervisor)@.phase is Running || old(supervisor)@.phase is Stopping
            || old(supervisor)@.phase is Killing,
    ensures
        final(supervisor).node() == old(supervisor).node(),
        final(supervisor)@.phase is Ended,
        only_phase_moved(old(supervisor)@, final(supervisor)@),
        effects@.len() == 1,
        old(supervisor)@.phase is Running ==> writes(
            effects@[0],
            LogLevel::Error,
            "failed to receive finished signal"@,
        ),
        old(supervisor)@.phase is Stopping ==> writes(
            effects@[0],
            LogLevel::Error,
            "failed to receive finished signal after stop command"@,
        ),
        old(supervisor)@.phase is Killing ==> writes(
            effects@[0],
            LogLevel::Error,
            "failed to receive finished signal after kill command"@,
        ),
{
    lemma_one_by_one(effects@, effects_view(effects@));
}

/// A process that ends after its node was stopped leaves the node parked, however it ended and whatever
/// the descriptor and the flag say: the daemon is told the exit status and that the node was stopped by
/// hand, and the receiver is kept for the start.
pub proof fn law_stopped_process_leaves_a_parked_node<R>(
    supervisor: &mut Supervisor<R>,
    finished: NodeProcessFinished<R>,
    restart_disabled: bool,
    now: Instant,
    effects: Vec<Effect<R>>,
)
    requires
        call_ensures(
            Supervisor::<R>::restart_loop,
            (supervisor, LoopEvent::Finished { finished, restart_disabled, now }),
            effects,
        ),
        old(supervisor)@.phase is Stopping,
    ensures
        final(supervisor).node() == old(supervisor).node(),
        final(supervisor)@.phase == (Phase::Parked { resume: Resume::Respawn }),
        final(supervisor)@.restart_times == old(supervisor)@.restart_times,
        final(supervisor)@.op_rx == Some(finished.op_rx),
        effects@.len() == 2,
        tells_daemon(effects@[0], old(supervisor).node(), finished.exit_status, false, true),
        writes(effects@[1], LogLevel::Info, "node manually stopped, entering parked state"@),
{
    lemma_one_by_one(effects@, effects_view(effects@));
}

/// When the delay is over the flag is looked up, and nothing else happens.
pub proof fn law_delay_leads_to_the_last_look<R>(
    supervisor: &mut Supervisor<R>,
    success: bool,
    effects: Vec<Effect<R>>,
)
    requires
        call_ensures(Supervisor::<R>::restart_loop, (supervisor, LoopEvent::DelayElapsed), effects),
        old(supervisor)@.phase == (Phase::Delaying { success }),
    ensures
        final(supervisor).node() == old(supervisor).node(),
        final(supervisor)@.phase == (Phase::Checking { success }),
        only_phase_moved(old(supervisor)@, final(supervisor)@),
        effects@.len() == 0,
{
    lemma_one_by_one(effects@, effects_view(effects@));
}

/// The last look decides by the flag alone: where restarts are disabled the loop ends, and otherwise the
/// node is respawned with the receiver at hand. The log says which, and how the last process ended.
pub proof fn law_last_look_decides_by_the_flag<R>(
    supervisor: &mut Supervisor<R>,
    disabled: bool,
    success: bool,
    effects: Vec<Effect<R>>,
)
    requires
        call_ensures(
            Supervisor::<R>::restart_loop,
            (supervisor, LoopEvent::RestartDisabled(disabled)),
            effects,
        ),
        old(supervisor)@.phase == (Phase::Checking { success }),
    ensures
        final(supervisor).node() == old(supervisor).node(),
        final(supervisor)@.restart_times == old(supervisor)@.restart_times,
        disabled <==> final(supervisor)@.phase is Ended,
        !disabled <==> final(supervisor)@.phase is Respawning,
        disabled ==> effects@.len() == 1 && final(supervisor)@.op_rx == old(supervisor)@.op_rx
            && writes(
            effects@[0],
            LogLevel::Info,
            "restart disabled during delay, not restarting"@,
        ),
        !disabled ==> effects@.len() == 2 && final(supervisor)@.op_rx is None && effects@[1]
            == Effect::Respawn(old(supervisor)@.op_rx->0),
        !disabled && success ==> writes(
            effects@[0],
            LogLevel::Info,
            "restarting node after successful exit"@,
        ),
        !disabled && !success ==> writes(
            effects@[0],
            LogLevel::Warn,
            "restarting node after failure"@,
        ),
{
    lemma_one_by_one(effects@, effects_view(effects@));
}

/// A node is running again exactly if its respawn gave a process, whose id is then stored. A node that
/// attaches itself, or that could not be spawned, ends the loop with an error in the log.
pub proof fn law_respawn_gives_a_process_or_ends<R>(
    supervisor: &mut Supervisor<R>,
    outcome: LoopEvent<R>,
    effects: Vec<Effect<R>>,
)
    requires
        call_ensures(Supervisor::<R>::restart_loop, (supervisor, outcome), effects),
        old(supervisor)@.phase is Respawning,
        outcome is Respawned || outcome is RespawnFailed,
    ensures
        final(supervisor).node() == old(supervisor).node(),
        only_phase_moved(old(supervisor)@, final(supervisor)@),
        effects@.len() == 1,
        match outcome {
            LoopEvent::Respawned(NodeKind::Spawned { pid }) => final(supervisor)@.phase is Running
                && effects@[0] == Effect::<R>::StorePid(pid),
            LoopEvent::Respawned(NodeKind::Dynamic) => final(supervisor)@.phase is Ended && writes(
                effects@[0],
                LogLevel::Error,
                "cannot restart dynamic node"@,
            ),
            LoopEvent::RespawnFailed(reason) => final(supervisor)@.phase is Ended && writes(
                effects@[0],
                LogLevel::Error,
                "failed to restart node: "@ + reason@,
            ),
            _ => true,
        },
{
    lemma_one_by_one(effects@, effects_view(effects@));
}

/// Whether a descriptor asks for a restart after this exit: a custom node that is always restarted, or
/// that is restarted on failure and ended with anything but a success.
pub open spec fn asks_for_restart(node: PreparedNode, exit_status: NodeExitStatus) -> bool {
    node.node.kind matches CoreNodeKind::Custom(custom) && (custom.restart_policy is Always
        || custom.restart_policy is OnFailure && !(exit_status is Success))
}

/// Whether a descriptor sets a rate limit: both settings are there and positive.
pub open spec fn sets_limit(node: PreparedNode, burst: u32, secs: u64) -> bool {
    &&& node.node.kind matches CoreNodeKind::Custom(custom)
    &&& custom.start_limit_burst == Some(burst)
    &&& custom.start_limit_interval_sec == Some(secs)
    &&& burst > 0
    &&& secs > 0
}

/// Whether the rate limit of a node, if it sets one, has room for a restart: with the stale entries at
/// the front of the record left aside, fewer than the permitted number are left.
pub open spec fn has_room(node: PreparedNode, times: Seq<Instant>, now: Instant) -> bool {
    match node.node.kind {
        CoreNodeKind::Custom(custom) => match (
            custom.start_limit_burst,
            custom.start_limit_interval_sec,
        ) {
            (Some(burst), Some(secs)) => burst == 0 || secs == 0 || exists|k: int| #[trigger]
                stale_front(times, now, (secs * 1_000_000_000) as nat, k) && times.len() - k < burst,
            _ => true,
        },
        CoreNodeKind::Runtime => true,
    }
}

/// What a descriptor says and what counts are the same.
proof fn lemma_descriptor_counts(
    node: PreparedNode,
    exit_status: NodeExitStatus,
    times: Seq<Instant>,
    now: Instant,
)
    ensures
        asks_for_restart(node, exit_status) == wants_restart(
            node.policy(),
            exit_status is Success,
        ),
        has_room(node, times, now) == limit_permits(node, times, now),
        node.limit() matches Some((burst, secs)) ==> sets_limit(node, burst, secs),
        node.limit() is None ==> forall|burst: u32, secs: u64| !sets_limit(node, burst, secs),
{
    if let Some((burst, secs)) = node.limit() {
        let interval = (secs * 1_000_000_000) as nat;
        let k = lemma_pruned_is_suffix(times, now, interval);
        assert(stale_front(times, now, interval, k));
        if has_room(node, times, now) {
            let other = choose|other: int| #[trigger]
                stale_front(times, now, interval, other) && times.len() - other < burst;
            law_stale_front_is_unique(times, now, interval, k, other);
        }
    }
}

/// Whether a node is restarted after an exit: its descriptor asks for it, restarts are not disabled, and
/// the rate limit has room.
pub open spec fn is_restarted(
    node: PreparedNode,
    exit_status: NodeExitStatus,
    restart_disabled: bool,
    times: Seq<Instant>,
    now: Instant,
) -> bool {
    asks_for_restart(node, exit_status) && !restart_disabled && has_room(node, times, now)
}

/// Whether a descriptor sets a delay before a restart.
pub open spec fn sets_delay(node: PreparedNode, secs: u64) -> bool {
    node.node.kind matches CoreNodeKind::Custom(custom) && custom.restart_sec == Some(secs) && secs
        > 0
}

/// The end of a process that was not stopped by hand: where the node is restarted, the loop goes on to
/// the delay that the descriptor sets or, without one, to the last look; otherwise it ends. Only a
/// restart under a rate limit is put on record, in place of what is stale there.
pub proof fn law_exit_is_decided_by_the_descriptor<R>(
    supervisor: &mut Supervisor<R>,
    finished: NodeProcessFinished<R>,
    restart_disabled: bool,
    now: Instant,
    effects: Vec<Effect<R>>,
)
    requires
        call_ensures(
            Supervisor::<R>::restart_loop,
            (supervisor, LoopEvent::Finished { finished, restart_disabled, now }),
            effects,
        ),
        old(supervisor)@.phase is Running || old(supervisor)@.phase is Killing,
    ensures
        ({
            let node = old(supervisor).node();
            let success = finished.exit_status is Success;
            let times = old(supervisor)@.restart_times;
            let restart = is_restarted(node, finished.exit_status, restart_disabled, times, now);
            let waits = exists|secs: u64| sets_delay(node, secs);
            &&& final(supervisor).node() == node
            &&& final(supervisor)@.op_rx == Some(finished.op_rx)
            &&& !restart ==> final(supervisor)@.phase is Ended && final(supervisor)@.restart_times
                == times
            &&& restart && waits ==> final(supervisor)@.phase == (Phase::Delaying { success })
            &&& restart && !waits ==> final(supervisor)@.phase == (Phase::Checking { success })
            &&& (forall|burst: u32, secs: u64| !sets_limit(node, burst, secs))
                ==> final(supervisor)@.restart_times == times
            &&& forall|burst: u32, secs: u64, k: int|
                restart && #[trigger] sets_limit(node, burst, secs) && #[trigger] stale_front(
                    times,
                    now,
                    (secs * 1_000_000_000) as nat,
                    k,
                ) ==> final(supervisor)@.restart_times == times.skip(k).push(now)
        }),
{
    let node = old(supervisor).node();
    let times = old(supervisor)@.restart_times;
    lemma_descriptor_counts(node, finished.exit_status, times, now);
    if node.delay_secs() > 0 {
        assert(sets_delay(node, node.delay_secs()));
    }
    if let Some((burst, secs)) = node.limit() {
        let interval = (secs * 1_000_000_000) as nat;
        let k = lemma_pruned_is_suffix(times, now, interval);
        assert(sets_limit(node, burst, secs) && stale_front(times, now, interval, k));
        assert forall|b: u32, i: u64, other: int|
            #[trigger] sets_limit(node, b, i) && #[trigger] stale_front(
                times,
                now,
                (i * 1_000_000_000) as nat,
                other,
            ) implies b == burst && i == secs && other == k by {
            law_stale_front_is_unique(times, now, interval, k, other);
        }
    }
}

/// What is done about the end of a process that was not stopped by hand, in order. A restart that the
/// descriptor asks for and that does not take place is explained in the log, a failure is traced, the
/// daemon is told the exit status and whether the node is restarted, once, and the delay is announced in
/// the log.
pub proof fn law_exit_is_told_as_it_is<R>(
    supervisor: &mut Supervisor<R>,
    finished: NodeProcessFinished<R>,
    restart_disabled: bool,
    now: Instant,
    effects: Vec<Effect<R>>,
)
    requires
        call_ensures(
            Supervisor::<R>::restart_loop,
            (supervisor, LoopEvent::Finished { finished, restart_disabled, now }),
            effects,
        ),
        old(supervisor)@.phase is Running || old(supervisor)@.phase is Killing,
    ensures
        ({
            let node = old(supervisor).node();
            let success = finished.exit_status is Success;
            let times = old(supervisor)@.restart_times;
            let asked = asks_for_restart(node, finished.exit_status);
            let restart = is_restarted(node, finished.exit_status, restart_disabled, times, now);
            let waits = restart && exists|secs: u64| sets_delay(node, secs);
            let refused: int = if asked && !restart {
                1
            } else {
                0
            };
            let traced: int = if success {
                0
            } else {
                1
            };
            &&& effects@.len() == refused + traced + 1 + (if waits {
                1int
            } else {
                0int
            })
            &&& tells_daemon(
                effects@[refused + traced],
                node,
                finished.exit_status,
                restart,
                false,
            )
            &&& asked && restart_disabled ==> writes(
                effects@[0],
                LogLevel::Info,
                "not restarting node because all inputs are already closed"@,
            )
            &&& forall|burst: u32, secs: u64|
                asked && !restart_disabled && !restart && #[trigger] sets_limit(node, burst, secs)
                    ==> writes(
                    effects@[0],
                    LogLevel::Error,
                    "node exceeded restart limit ("@ + decimal(burst as nat) + " restarts within "@
                        + decimal(secs as nat) + "s), giving up and leaving it stopped"@,
                )
            &&& !success ==> (effects@[refused] matches Effect::TraceFailure {
                dataflow_id,
                node_id,
                exit_status,
            } && dataflow_id == node.dataflow_id && node_id@ == node.node.id@ && exit_status
                == finished.exit_status)
            &&& forall|secs: u64|
                waits && #[trigger] sets_delay(node, secs) ==> writes(
                    effects@[refused + traced + 1],
                    LogLevel::Info,
                    "waiting "@ + decimal(secs as nat) + "s before restarting node"@,
                )
        }),
{
    let node = old(supervisor).node();
    let times = old(supervisor)@.restart_times;
    lemma_descriptor_counts(node, finished.exit_status, times, now);
    if node.delay_secs() > 0 {
        assert(sets_delay(node, node.delay_secs()));
    }
    let i = lemma_exit_effects_one_by_one(
        node,
        old(supervisor)@,
        finished,
        restart_disabled,
        now,
        effects@,
    );
}

/// The end of a process is handled alike whether it comes as an event or is handed over directly.
pub proof fn law_exit_is_handled_alike<R>(
    supervisor: &mut Supervisor<R>,
    other: &mut Supervisor<R>,
    finished: NodeProcessFinished<R>,
    restart_disabled: bool,
    now: Instant,
    effects: Vec<Effect<R>>,
    other_effects: Vec<Effect<R>>,
)
    requires
        call_ensures(
            Supervisor::<R>::restart_loop,
            (supervisor, LoopEvent::Finished { finished, restart_disabled, now }),
            effects,
        ),
        call_ensures(
            Supervisor::<R>::handle_normal_exit,
            (other, finished, restart_disabled, now),
            other_effects,
        ),
        old(supervisor)@.phase is Running || old(supervisor)@.phase is Killing,
        old(other)@ == old(supervisor)@,
        old(other).node() == old(supervisor).node(),
    ensures
        final(other)@ == final(supervisor)@,
        final(other).node() == final(supervisor).node(),
        effects@.len() == other_effects@.len(),
        forall|i: int|
            0 <= i < effects@.len() ==> (#[trigger] effects@[i])@ == other_effects@[i]@,
{
    lemma_one_by_one(effects@, effects_view(effects@));
    lemma_one_by_one(other_effects@, effects_view(other_effects@));
}

/// An event is expected exactly where it can occur: the end of a process, or the loss of it, while one
/// runs or is being ended; a command, or the end of commands, while the node runs, waits for its restart
/// or is parked; the end of the delay during it; the flag at the last look; the outcome of a respawn while
/// it is under way. A loop that is over expects nothing.
pub proof fn law_events_are_expected_where_they_occur<R>(
    supervisor: Supervisor<R>,
    event: LoopEvent<R>,
    expected: bool,
)
    requires
        call_ensures(Supervisor::<R>::expects, (&supervisor, &event), expected),
    ensures
        ({
            let phase = supervisor@.phase;
            match event {
                LoopEvent::Finished { .. } => expected <==> phase is Running || phase is Stopping
                    || phase is Killing,
                LoopEvent::FinishLost => expected <==> phase is Running || phase is Stopping
                    || phase is Killing,
                LoopEvent::Command(_) => expected <==> phase is Running || phase is Delaying
                    || phase is Parked,
                LoopEvent::CommandsClosed => expected <==> phase is Running || phase is Delaying
                    || phase is Parked,
                LoopEvent::DelayElapsed => expected <==> phase is Delaying,
                LoopEvent::RestartDisabled(_) => expected <==> phase is Checking,
                LoopEvent::Respawned(_) => expected <==> phase is Respawning,
                LoopEvent::RespawnFailed(_) => expected <==> phase is Respawning,
            }
        }),
        accepts(supervisor@.phase, event) == expected,
{
}

/// What is said to be awaited is what is expected: each kind of event is awaited exactly where it is
/// expected.
pub proof fn law_what_is_awaited_is_expected<R>(
    supervisor: Supervisor<R>,
    event: LoopEvent<R>,
    awaited: Awaited,
    expected: bool,
    phase: Phase,
    secs: u64,
)
    requires
        call_ensures(Supervisor::<R>::awaited, (&supervisor,), awaited),
        call_ensures(Supervisor::<R>::expects, (&supervisor, &event), expected),
        call_ensures(Supervisor::<R>::phase, (&supervisor,), phase),
        call_ensures(Supervisor::<R>::delay, (&supervisor,), secs),
    ensures
        event is Finished || event is FinishLost ==> (expected <==> awaited is ExitOrCommand
            || awaited is Exit),
        event is Command || event is CommandsClosed ==> (expected <==> awaited is ExitOrCommand
            || awaited is DelayOrCommand || awaited is Command),
        event is DelayElapsed ==> (expected <==> awaited is DelayOrCommand),
        event is RestartDisabled ==> (expected <==> awaited is RestartDisabled),
        event is Respawned || event is RespawnFailed ==> (expected <==> awaited is Respawn),
        awaited is Nothing <==> phase is Ended,
        phase == supervisor@.phase,
        secs > 0 ==> sets_delay(supervisor.node(), secs),
        secs == 0 ==> forall|s: u64| !sets_delay(supervisor.node(), s),
{
}

/// The record of a node that was spawned: the daemon can act on a process and knows its id exactly if
/// there is one; the configuration and the policy are those of the node; nothing has happened to it yet,
/// and its loop has just begun.
pub proof fn law_spawned_node_is_on_record<R>(
    node: PreparedNode,
    kind: NodeKind,
    spawned: (RunningNode, Supervisor<R>),
)
    requires
        call_ensures(PreparedNode::spawn::<R>, (node, kind), spawned),
    ensures
        kind is Dynamic ==> !spawned.0.process && spawned.0.pid is None,
        kind matches NodeKind::Spawned { pid } ==> spawned.0.process && spawned.0.pid == Some(pid),
        spawned.0.node_config@ == node.node_config@,
        node.node.kind matches CoreNodeKind::Custom(custom) ==> spawned.0.restart_policy
            == custom.restart_policy,
        node.node.kind is Runtime ==> spawned.0.restart_policy is Never,
        !spawned.0.disable_restart,
        !spawned.0.manually_stopped,
        !spawned.0.grace_timer,
        spawned.1.node() == node,
        spawned.1@.phase is Running,
        spawned.1@.restart_times.len() == 0,
        spawned.1@.op_rx is None,
{
}

/// Where the report stands among what is done about the end of a process, and what stands around it.
proof fn lemma_exit_effects_one_by_one<R>(
    node: PreparedNode,
    s: LoopState<R>,
    finished: NodeProcessFinished<R>,
    restart_disabled: bool,
    now: Instant,
    effects: Seq<Effect<R>>,
) -> (i: int)
    requires
        effects_view(effects) == after_exit(node, s, finished, restart_disabled, now).1,
    ensures
        ({
            let success = finished.exit_status is Success;
            let restart = restarts(node, s.restart_times, success, restart_disabled, now);
            let wanted = wants_restart(node.policy(), success);
            let refused: int = if wanted && !restart {
                1
            } else {
                0
            };
            let traced: int = if success {
                0
            } else {
                1
            };
            let waits = restart && node.delay_secs() > 0;
            &&& i == refused + traced
            &&& effects.len() == i + 1 + (if waits {
                1int
            } else {
                0int
            })
            &&& tells_daemon(effects[i], node, finished.exit_status, restart, false)
            &&& refused == 1 && restart_disabled ==> writes(
                effects[0],
                LogLevel::Info,
                "not restarting node because all inputs are already closed"@,
            )
            &&& refused == 1 && !restart_disabled ==> (node.limit() matches Some((burst, secs))
                && writes(
                effects[0],
                LogLevel::Error,
                "node exceeded restart limit ("@ + decimal(burst as nat) + " restarts within "@
                    + decimal(secs as nat) + "s), giving up and leaving it stopped"@,
            ))
            &&& !success ==> (effects[refused] matches Effect::TraceFailure {
                dataflow_id,
                node_id,
                exit_status,
            } && dataflow_id == node.dataflow_id && node_id@ == node.node.id@ && exit_status
                == finished.exit_status)
            &&& waits ==> writes(
                effects[i + 1],
                LogLevel::Info,
                "waiting "@ + decimal(node.delay_secs() as nat) + "s before restarting node"@,
            )
        }),
{
    let success = finished.exit_status is Success;
    let restart = restarts(node, s.restart_times, success, restart_disabled, now);
    let refused = refusal::<R>(node, s.restart_times, success, restart_disabled, now);
    let traced = failure_trace::<R>(node, finished.exit_status);
    let told = report::<R>(node, finished.exit_status, restart, false);
    let upto = refused + traced + seq![told];
    lemma_one_by_one(effects, effects_view(effects));
    assert(upto.len() == refused.len() + traced.len() + 1);
    let i = (refused.len() + traced.len()) as int;
    assert(upto[i] == told);
    assert(refused.len() > 0 ==> upto[0] == refused[0]);
    assert(traced.len() > 0 ==> upto[refused.len() as int] == traced[0]);
    i
}

} // verus!
