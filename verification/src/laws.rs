//! What holds of the library as a whole: of any sequence of requests to a manager, and of any
//! run of a supervisor.

use crate::backoff::{lemma_longest_delay_doubles, longest_delay};
use crate::error::Error;
use crate::manager::{
    fresh_entry, is_launch, Launch, ManagerState, RestartMode, RESTART_DECAY_UPTIME_SECS,
};
use crate::process::{CommandView, Handle, ProcessCallbacks, ProcessView};
use crate::supervisor::{next, ActionView, Event, Phase, Supervisor};
use crate::time::Duration;
use vstd::prelude::*;

verus! {

/// A state comes after itself.
pub proof fn lemma_follows_is_reflexive(state: ManagerState)
    ensures
        state.follows(state),
{
}

/// What every request keeps, any sequence of requests keeps.
pub proof fn lemma_follows_is_transitive(
    first: ManagerState,
    second: ManagerState,
    third: ManagerState,
)
    requires
        second.follows(first),
        third.follows(second),
    ensures
        third.follows(first),
{
    assert forall|id: u64| #[trigger] first.manages(id) implies third.manages(id) by {
        assert(second.manages(id));
    }
    assert forall|id: u64| #[trigger] first.manages(id) && first.processes[id].cancelled implies
        third.processes[id].cancelled by {
        assert(second.manages(id));
    }
    assert forall|id: u64| #[trigger] first.manages(id) implies {
        &&& third.processes[id].process.executable == first.processes[id].process.executable
        &&& third.processes[id].process.stdin_tx == first.processes[id].process.stdin_tx
        &&& third.processes[id].cancel_timeout == first.processes[id].cancel_timeout
    } by {
        assert(second.manages(id));
    }
}

/// No key is given to two processes: after a process has been started, whatever happens, the
/// next one is started under another key.
pub proof fn lemma_keys_are_unique(
    before: ManagerState,
    first: ProcessView,
    now: Duration,
    first_launch: Launch,
    started: ManagerState,
    between: ManagerState,
    second: ProcessView,
    later: Duration,
    second_launch: Launch,
    after: ManagerState,
)
    requires
        is_launch(before, first, now, Ok(first_launch), started),
        between.follows(started),
        is_launch(between, second, later, Ok(second_launch), after),
    ensures
        first_launch.key@ != second_launch.key@,
{
    assert(started.manages(first_launch.key@));
}

/// Once a manager has been stopped, whatever happens, it refuses to start any process.
pub proof fn lemma_nothing_is_started_after_a_stop(
    stopped: ManagerState,
    between: ManagerState,
    after: ManagerState,
    process: ProcessView,
    now: Duration,
    launch: Result<Launch, Error>,
)
    requires
        stopped.stopped,
        between.follows(stopped),
        is_launch(between, process, now, launch, after),
    ensures
        launch is Err,
        launch->Err_0 == Error::Stopped,
        after == between,
{
}

/// Each setting is read back as it was set, and setting it changes no other and no process.
pub proof fn lemma_settings_are_read_back(
    state: ManagerState,
    restart_mode: RestartMode,
    max_restarts: usize,
    max_backoff: Duration,
    liveness_interval: Option<Duration>,
)
    ensures
        ({
            let mode_set = ManagerState { restart_mode, ..state };
            let restarts_set = ManagerState { max_restarts, ..mode_set };
            let backoff_set = ManagerState { max_backoff, ..restarts_set };
            let all_set = ManagerState { liveness_interval, ..backoff_set };
            &&& all_set.restart_mode == restart_mode
            &&& all_set.max_restarts == max_restarts
            &&& all_set.max_backoff == max_backoff
            &&& all_set.liveness_interval == liveness_interval
            &&& all_set.processes == state.processes
            &&& all_set.stopped == state.stopped
        }),
{
}

/// A manager that has been stopped stays stopped, and halts every process there is or will be.
pub proof fn lemma_stopping_is_final(before: ManagerState, after: ManagerState, id: u64)
    requires
        before.stopped,
        after.follows(before),
    ensures
        after.stopped,
        after.is_cancelled(id),
{
}

/// A process that has been stopped stays stopped, and stopping it halts no other process.
pub proof fn lemma_stopping_a_process_is_final_and_stops_no_other(
    before: ManagerState,
    after: ManagerState,
    id: u64,
    other: u64,
)
    requires
        before.manages(id),
        after.follows(before.with_cancelled(id)),
        other != id,
    ensures
        after.is_cancelled(id),
        before.with_cancelled(id).is_cancelled(other) == before.is_cancelled(other),
{
    assert(before.with_cancelled(id).manages(id));
}

/// What is changed of a managed process is what its next child is made from: the arguments, the
/// environment variables and the file descriptors. It does not touch the current child. A process
/// that has been stopped has no next child.
pub proof fn lemma_changes_reach_the_next_child(
    manager: ManagerState,
    supervisor: Supervisor,
    args: Seq<Seq<char>>,
    env: Seq<(Seq<char>, Seq<char>)>,
    fds: Handle,
)
    requires
        manager.manages(supervisor.key@),
        !manager.is_cancelled(supervisor.key@),
    ensures
        ({
            let id = supervisor.key@;
            let changed = manager.with_args(id, args).with_env(id, env).with_fds(id, fds);
            &&& next(changed, supervisor, Event::DelayElapsed, None).action == ActionView::Spawn {
                command: CommandView {
                    executable: manager.processes[id].process.executable,
                    args,
                    env,
                },
                fds: Some(fds),
            }
            &&& changed.processes[id].pid == manager.processes[id].pid
            &&& changed.processes[id].restarts == manager.processes[id].restarts
            &&& changed.processes[id].started_at == manager.processes[id].started_at
            &&& changed.is_cancelled(id) == manager.is_cancelled(id)
        }),
{
}

/// File descriptors are handed to one child only: a process that is started or restarted has
/// none left for the child after that.
pub proof fn lemma_file_descriptors_are_handed_out_once(
    manager: ManagerState,
    supervisor: Supervisor,
    event: Event,
    delay: Option<Duration>,
    process: ProcessView,
    now: Duration,
)
    ensures
        fresh_entry(process, now).process.callbacks.fds is None,
        ({
            let step = next(manager, supervisor, event, delay);
            step.action is Spawn
                ==> step.manager.processes[supervisor.key@].process.callbacks.fds is None
        }),
{
}

/// Supervising one process changes nothing but what is known of it.
pub proof fn lemma_supervision_is_local(
    manager: ManagerState,
    supervisor: Supervisor,
    event: Event,
    delay: Option<Duration>,
)
    requires
        supervisor.well_formed(manager),
        supervisor.accepts(event),
    ensures
        ({
            let after = next(manager, supervisor, event, delay).manager;
            let id = supervisor.key@;
            &&& after == manager || (manager.manages(id) && after == manager.with_entry(
                id,
                after.processes[id],
            ))
        }),
{
    let after = next(manager, supervisor, event, delay).manager;
    if after != manager {
        assert(after =~= manager.with_entry(supervisor.key@, after.processes[supervisor.key@]));
    }
}

/// A request that forgets nothing and does not touch the restart counter does not get in the
/// way of a supervisor.
pub proof fn lemma_requests_do_not_disturb_supervision(
    supervisor: Supervisor,
    before: ManagerState,
    after: ManagerState,
)
    requires
        supervisor.well_formed(before),
        after.follows(before),
        after.manages(supervisor.key@) ==> before.manages(supervisor.key@),
        before.manages(supervisor.key@) ==> after.processes[supervisor.key@].restarts
            == before.processes[supervisor.key@].restarts,
    ensures
        supervisor.well_formed(after),
{
}

/// Supervisors of different processes do not get in each other's way.
pub proof fn lemma_supervisors_do_not_disturb_each_other(
    manager: ManagerState,
    supervisor: Supervisor,
    event: Event,
    delay: Option<Duration>,
    other: Supervisor,
)
    requires
        supervisor.well_formed(manager),
        supervisor.accepts(event),
        other.well_formed(manager),
        other.key@ != supervisor.key@,
    ensures
        ({
            let after = next(manager, supervisor, event, delay).manager;
            &&& other.well_formed(after)
            &&& after.manages(other.key@) == manager.manages(other.key@)
            &&& after.processes[other.key@] == manager.processes[other.key@]
        }),
{
}

/// A process that stayed up long enough has its earlier restarts forgiven, and is restarted if
/// it then fails, whatever the count was, unless restarts are disabled.
pub proof fn lemma_restarts_are_forgiven(manager: ManagerState, id: u64, now: Duration)
    requires
        manager.manages(id),
        manager.processes[id].uptime(now) >= RESTART_DECAY_UPTIME_SECS as nat
            * 1_000_000_000,
    ensures
        manager.after_exit(id, now).processes[id].restarts == 0,
        manager.restarts_after_exit(id, false, now) == (manager.max_restarts > 0),
{
}

/// Each attempt to restart a process backs off further: the longest delay before the next one is
/// twice as long, up to the ceiling.
pub proof fn lemma_each_attempt_backs_off_further(
    manager: ManagerState,
    id: u64,
    base: Duration,
    delay: Option<Duration>,
)
    requires
        manager.manages(id),
        manager.restart_mode == RestartMode::ExponentialBackoff(base),
        manager.processes[id].restarts < usize::MAX,
        manager.after_attempt(id).allows_delay(id, delay),
    ensures
        ({
            let restarts = manager.processes[id].restarts as nat;
            let longest = longest_delay(base, manager.max_backoff, restarts);
            &&& delay is Some
            &&& delay->0@ <= 2 * longest
            &&& delay->0@ <= manager.max_backoff@
            &&& 2 * longest <= manager.max_backoff@ ==> longest_delay(
                base,
                manager.max_backoff,
                restarts + 1,
            ) == 2 * longest
        }),
{
    lemma_longest_delay_doubles(
        base,
        manager.max_backoff,
        manager.processes[id].restarts as nat,
    );
}

/// A process that exits as it should is not restarted.
pub proof fn lemma_success_is_no_reason_to_restart(manager: ManagerState, id: u64, now: Duration)
    ensures
        !manager.restarts_after_exit(id, true, now),
{
}

/// One turn of a supervisor: an event, and the state of the manager at the time.
pub struct Turn {
    pub manager: ManagerState,
    pub event: Event,
    pub delay: Option<Duration>,
}

/// The supervisor after some turns.
pub open spec fn supervisor_after(supervisor: Supervisor, turns: Seq<Turn>) -> Supervisor
    decreases turns.len(),
{
    if turns.len() == 0 {
        supervisor
    } else {
        let turn = turns.last();
        next(
            turn.manager,
            supervisor_after(supervisor, turns.drop_last()),
            turn.event,
            turn.delay,
        ).supervisor
    }
}

/// What the supervisor does in some turns.
pub open spec fn actions(supervisor: Supervisor, turns: Seq<Turn>) -> Seq<ActionView>
    decreases turns.len(),
{
    if turns.len() == 0 {
        Seq::empty()
    } else {
        let turn = turns.last();
        actions(supervisor, turns.drop_last()).push(
            next(
                turn.manager,
                supervisor_after(supervisor, turns.drop_last()),
                turn.event,
                turn.delay,
            ).action,
        )
    }
}

/// Whether each event is one that the supervisor is waiting for by then. Between two turns
/// anything may happen to the manager.
pub open spec fn is_run(supervisor: Supervisor, turns: Seq<Turn>) -> bool
    decreases turns.len(),
{
    turns.len() == 0 || {
        let reached = supervisor_after(supervisor, turns.drop_last());
        &&& is_run(supervisor, turns.drop_last())
        &&& reached.well_formed(turns.last().manager)
        &&& reached.accepts(turns.last().event)
    }
}

/// Something that a queued callback is told.
pub enum Notice {
    Stdout { callback: Handle, line: Seq<char> },
    Stderr { callback: Handle, line: Seq<char> },
    Restarted { callback: Handle },
}

/// What there is to tell of an event.
pub open spec fn noticed(callbacks: ProcessCallbacks, event: Event) -> Option<Notice> {
    match event {
        Event::StdoutLine { line } => match callbacks.on_stdout {
            Some(callback) => Some(Notice::Stdout { callback, line: line@ }),
            None => None,
        },
        Event::StderrLine { line } => match callbacks.on_stderr {
            Some(callback) => Some(Notice::Stderr { callback, line: line@ }),
            None => None,
        },
        Event::Spawned { .. } => match callbacks.on_start {
            Some(callback) => Some(Notice::Restarted { callback }),
            None => None,
        },
        _ => None,
    }
}

/// What an action queues.
pub open spec fn queued(action: ActionView) -> Option<Notice> {
    match action {
        ActionView::QueueStdout { callback, line } => Some(Notice::Stdout { callback, line }),
        ActionView::QueueStderr { callback, line } => Some(Notice::Stderr { callback, line }),
        ActionView::QueueRestarted { callback } => Some(Notice::Restarted { callback }),
        _ => None,
    }
}

/// A supervisor keeps its process and its callbacks.
proof fn lemma_supervisor_keeps_its_process(supervisor: Supervisor, turns: Seq<Turn>)
    ensures
        supervisor_after(supervisor, turns).key == supervisor.key,
        supervisor_after(supervisor, turns).callbacks == supervisor.callbacks,
    decreases turns.len(),
{
    if turns.len() > 0 {
        lemma_supervisor_keeps_its_process(supervisor, turns.drop_last());
    }
}

/// Callbacks are queued in the order in which the events are received: each line and each
/// restart for which there is a callback, once, and nothing else.
pub proof fn lemma_callbacks_are_queued_in_order(supervisor: Supervisor, turns: Seq<Turn>)
    requires
        is_run(supervisor, turns),
    ensures
        actions(supervisor, turns).filter_map(|action: ActionView| queued(action))
            == turns.filter_map(|turn: Turn| noticed(supervisor.callbacks, turn.event)),
    decreases turns.len(),
{
    let told = |action: ActionView| queued(action);
    let tells = |turn: Turn| noticed(supervisor.callbacks, turn.event);
    if turns.len() > 0 {
        let before = turns.drop_last();
        lemma_callbacks_are_queued_in_order(supervisor, before);
        lemma_supervisor_keeps_its_process(supervisor, before);
        let acted = actions(supervisor, turns);
        assert(acted.drop_last() =~= actions(supervisor, before));
        assert(told(acted.last()) == tells(turns.last()));
    }
}

/// Whether the last of `actions` that tells of an exit announces a restart, if there is one.
pub open spec fn announced(actions: Seq<ActionView>) -> Option<bool>
    decreases actions.len(),
{
    if actions.len() == 0 {
        None
    } else {
        match actions.last() {
            ActionView::ReportExit { restarting, .. } => Some(restarting),
            _ => announced(actions.drop_last()),
        }
    }
}

/// Whether a restart is announced as long as one is under way, and none is when the supervision
/// is about to end.
spec fn announces_truly(supervisor: Supervisor, turns: Seq<Turn>) -> bool {
    match supervisor_after(supervisor, turns).phase {
        Phase::ReportingExit { restarting, .. } => announced(actions(supervisor, turns)) == Some(
            restarting,
        ),
        Phase::Delaying { .. } => announced(actions(supervisor, turns)) == Some(true),
        Phase::Spawning { .. } => announced(actions(supervisor, turns)) == Some(true),
        Phase::Finished => announced(actions(supervisor, turns)) == Some(false),
        _ => true,
    }
}

/// An announcement stands for what follows, throughout a run.
proof fn lemma_announcements_are_true(supervisor: Supervisor, turns: Seq<Turn>)
    requires
        supervisor.phase is Running,
        is_run(supervisor, turns),
        forall|i: int| 0 <= i < turns.len() ==> #[trigger] turns[i].manager.manages(supervisor.key@),
    ensures
        announces_truly(supervisor, turns),
    decreases turns.len(),
{
    if turns.len() > 0 {
        let before = turns.drop_last();
        assert forall|i: int| 0 <= i < before.len() implies #[trigger] before[i].manager.manages(
            supervisor.key@,
        ) by {
            assert(before[i] == turns[i]);
        }
        lemma_announcements_are_true(supervisor, before);
        lemma_supervisor_keeps_its_process(supervisor, before);
        let acted = actions(supervisor, turns);
        assert(acted.drop_last() =~= actions(supervisor, before));
        assert(turns.last() == turns[turns.len() - 1]);
    }
}

/// The supervision of a managed process does not end before its last exit has been reported,
/// and the last report is that there will be no restart. One that was announced and could not
/// be had is taken back.
pub proof fn lemma_the_end_is_announced(supervisor: Supervisor, turns: Seq<Turn>)
    requires
        supervisor.phase is Running,
        is_run(supervisor, turns),
        forall|i: int| 0 <= i < turns.len() ==> #[trigger] turns[i].manager.manages(supervisor.key@),
        turns.len() > 0,
        actions(supervisor, turns).last() is Finish,
    ensures
        announced(actions(supervisor, turns)) == Some(false),
{
    lemma_announcements_are_true(supervisor, turns);
}

/// How many of `actions` attempt to spawn a child.
pub open spec fn attempts(actions: Seq<ActionView>) -> nat
    decreases actions.len(),
{
    if actions.len() == 0 {
        0
    } else {
        attempts(actions.drop_last()) + if actions.last() is Spawn {
            1nat
        } else {
            0
        }
    }
}

/// How many of `actions` announce a restart.
pub open spec fn announcements(actions: Seq<ActionView>) -> nat
    decreases actions.len(),
{
    if actions.len() == 0 {
        0
    } else {
        announcements(actions.drop_last()) + match actions.last() {
            ActionView::ReportExit { restarting: true, .. } => 1nat,
            _ => 0,
        }
    }
}

/// The restart counter of the supervised process after the turn `i`.
pub open spec fn count_after(supervisor: Supervisor, turns: Seq<Turn>, i: int) -> nat {
    let turn = turns[i];
    next(
        turn.manager,
        supervisor_after(supervisor, turns.take(i)),
        turn.event,
        turn.delay,
    ).manager.processes[supervisor.key@].restarts as nat
}

/// Whether nobody else touches the restart counter of the process or the limit on it, and no
/// child stays up for long enough to have it forgiven.
pub open spec fn is_restart_storm(supervisor: Supervisor, turns: Seq<Turn>, limit: usize) -> bool {
    &&& forall|i: int|
        0 <= i < turns.len() ==> {
            &&& (#[trigger] turns[i]).manager.manages(supervisor.key@)
            &&& turns[i].manager.max_restarts == limit
            &&& turns[i].event matches Event::Exited { now, .. }
                ==> turns[i].manager.processes[supervisor.key@].uptime(now)
                < RESTART_DECAY_UPTIME_SECS as nat * 1_000_000_000
        }
    &&& forall|i: int|
        0 < i < turns.len() ==> (
        #[trigger] turns[i]).manager.processes[supervisor.key@].restarts as nat == count_after(
            supervisor,
            turns,
            i - 1,
        )
}

/// Whether the counter and the announcements, of which there are `announced` since the counter
/// read `first`, are within the limit, and leave room for a restart that is owed.
spec fn is_within_limit(
    supervisor: Supervisor,
    count: nat,
    first: nat,
    announced: nat,
    limit: usize,
) -> bool {
    &&& count <= limit
    &&& supervisor.owes_restart() ==> count < limit
    &&& first + announced <= limit
    &&& match supervisor.phase {
        Phase::ReportingExit { restarting, .. } => restarting ==> first + announced <= count + 1,
        Phase::Delaying { .. } => first + announced <= count + 1,
        Phase::Finished => true,
        _ => first + announced <= count,
    }
}

/// One turn of a restart storm stays within the limit, and counts what it attempts.
proof fn lemma_turn_is_within_limit(
    turn: Turn,
    supervisor: Supervisor,
    first: nat,
    announced: nat,
    limit: usize,
)
    requires
        supervisor.well_formed(turn.manager),
        supervisor.accepts(turn.event),
        turn.manager.manages(supervisor.key@),
        turn.manager.max_restarts == limit,
        turn.event matches Event::Exited { now, .. }
            ==> turn.manager.processes[supervisor.key@].uptime(now)
            < RESTART_DECAY_UPTIME_SECS as nat * 1_000_000_000,
        is_within_limit(
            supervisor,
            turn.manager.processes[supervisor.key@].restarts as nat,
            first,
            announced,
            limit,
        ),
    ensures
        ({
            let step = next(turn.manager, supervisor, turn.event, turn.delay);
            let count = step.manager.processes[supervisor.key@].restarts as nat;
            &&& count == turn.manager.processes[supervisor.key@].restarts + if step.action is Spawn {
                1nat
            } else {
                0
            }
            &&& is_within_limit(
                step.supervisor,
                count,
                first,
                announced + match step.action {
                    ActionView::ReportExit { restarting: true, .. } => 1nat,
                    _ => 0,
                },
                limit,
            )
        }),
{
}

/// What the last turn of a run adds to it.
proof fn lemma_last_turn(supervisor: Supervisor, turns: Seq<Turn>)
    requires
        is_run(supervisor, turns),
        turns.len() > 0,
    ensures
        ({
            let before = turns.drop_last();
            let reached = supervisor_after(supervisor, before);
            let turn = turns.last();
            let step = next(turn.manager, reached, turn.event, turn.delay);
            let acted = actions(supervisor, before);
            &&& is_run(supervisor, before)
            &&& reached.well_formed(turn.manager)
            &&& reached.accepts(turn.event)
            &&& reached.key == supervisor.key
            &&& supervisor_after(supervisor, turns) == step.supervisor
            &&& actions(supervisor, turns) == acted.push(step.action)
            &&& attempts(actions(supervisor, turns)) == attempts(acted) + if step.action is Spawn {
                1nat
            } else {
                0
            }
            &&& announcements(actions(supervisor, turns)) == announcements(acted)
                + match step.action {
                ActionView::ReportExit { restarting: true, .. } => 1nat,
                _ => 0,
            }
            &&& count_after(supervisor, turns, turns.len() - 1)
                == step.manager.processes[supervisor.key@].restarts as nat
        }),
{
    let before = turns.drop_last();
    let acted = actions(supervisor, turns);
    lemma_supervisor_keeps_its_process(supervisor, before);
    assert(acted.drop_last() =~= actions(supervisor, before));
    assert(turns.take(turns.len() - 1) =~= before);
}

/// A restart storm without its last turn is one, and counts the same up to there.
proof fn lemma_storm_before(supervisor: Supervisor, turns: Seq<Turn>, limit: usize)
    requires
        is_restart_storm(supervisor, turns, limit),
        turns.len() > 1,
    ensures
        is_restart_storm(supervisor, turns.drop_last(), limit),
        turns.last().manager.processes[supervisor.key@].restarts as nat == count_after(
            supervisor,
            turns.drop_last(),
            turns.len() - 2,
        ),
{
    let before = turns.drop_last();
    assert forall|i: int| 0 <= i < before.len() implies #[trigger] before[i] == turns[i]
        && before.take(i) == turns.take(i) by {
        assert(before.take(i) =~= turns.take(i));
    }
    assert forall|i: int| 0 < i < before.len() implies (
    #[trigger] before[i]).manager.processes[supervisor.key@].restarts as nat == count_after(
        supervisor,
        before,
        i - 1,
    ) by {
        assert(before[i] == turns[i]);
        assert(before[i - 1] == turns[i - 1]);
    }
    assert(turns.last() == turns[turns.len() - 1]);
    assert(before[turns.len() - 2] == turns[turns.len() - 2]);
}

/// Every attempt in a restart storm is counted, none is made beyond the limit, and a restart is
/// announced only as long as one is left to attempt.
#[verifier::spinoff_prover]
proof fn lemma_attempts_are_counted(supervisor: Supervisor, turns: Seq<Turn>, limit: usize)
    requires
        supervisor.phase is Running,
        is_run(supervisor, turns),
        is_restart_storm(supervisor, turns, limit),
        turns.len() > 0,
        turns[0].manager.processes[supervisor.key@].restarts <= limit,
    ensures
        ({
            let count = count_after(supervisor, turns, turns.len() - 1);
            let first = turns[0].manager.processes[supervisor.key@].restarts as nat;
            &&& count == first + attempts(actions(supervisor, turns))
            &&& is_within_limit(
                supervisor_after(supervisor, turns),
                count,
                first,
                announcements(actions(supervisor, turns)),
                limit,
            )
        }),
    decreases turns.len(),
{
    let before = turns.drop_last();
    let first = turns[0].manager.processes[supervisor.key@].restarts as nat;
    lemma_last_turn(supervisor, turns);
    assert(turns.last() == turns[turns.len() - 1]);
    if turns.len() > 1 {
        lemma_storm_before(supervisor, turns, limit);
        assert(before[0] == turns[0]);
        lemma_attempts_are_counted(supervisor, before, limit);
    }
    lemma_turn_is_within_limit(
        turns.last(),
        supervisor_after(supervisor, before),
        first,
        announcements(actions(supervisor, before)),
        limit,
    );
}

/// A process that keeps failing is restarted no more often than allowed, attempts that fail
/// included. Nor are more restarts announced, and the counter is what was attempted and stays
/// within the limit.
pub proof fn lemma_restarts_are_limited(supervisor: Supervisor, turns: Seq<Turn>, limit: usize)
    requires
        supervisor.phase is Running,
        is_run(supervisor, turns),
        is_restart_storm(supervisor, turns, limit),
        turns.len() > 0,
        turns[0].manager.processes[supervisor.key@].restarts <= limit,
    ensures
        turns[0].manager.processes[supervisor.key@].restarts + attempts(
            actions(supervisor, turns),
        ) <= limit,
        turns[0].manager.processes[supervisor.key@].restarts + announcements(
            actions(supervisor, turns),
        ) <= limit,
        count_after(supervisor, turns, turns.len() - 1)
            == turns[0].manager.processes[supervisor.key@].restarts + attempts(
            actions(supervisor, turns),
        ),
        count_after(supervisor, turns, turns.len() - 1) <= limit,
{
    lemma_attempts_are_counted(supervisor, turns, limit);
}

/// A child that was found dead without having been reported is killed once: until another child
/// is found so, it is not even looked at.
pub proof fn lemma_survivors_are_killed_once(
    manager: ManagerState,
    supervisor: Supervisor,
    event: Event,
    delay: Option<Duration>,
)
    requires
        supervisor.well_formed(manager),
        supervisor.accepts(event),
    ensures
        ({
            let step = next(manager, supervisor, event, delay);
            &&& step.action is KillSurvivors ==> {
                &&& supervisor.phase is CheckingLeader
                &&& supervisor.tripped_for != Some(supervisor.phase->CheckingLeader_pid)
                &&& step.supervisor.tripped_for == Some(supervisor.phase->CheckingLeader_pid)
            }
            &&& !(step.action is KillSurvivors) ==> step.supervisor.tripped_for
                == supervisor.tripped_for
            &&& step.action is ReadStatus ==> {
                &&& event == (Event::LivenessTick { pid: Some(step.action->ReadStatus_pid) })
                &&& supervisor.tripped_for != Some(step.action->ReadStatus_pid)
                &&& step.supervisor.phase == (Phase::CheckingLeader {
                    pid: step.action->ReadStatus_pid,
                })
            }
        }),
{
}

/// How often to check on a child is up to the interval that the manager has at the time: without
/// one the check is disabled, and no child is looked at or killed for being dead without having
/// been reported. With one, a tick is answered by a look at a child that has not been found dead
/// before. A change is told at once.
pub proof fn lemma_the_present_interval_counts(
    manager: ManagerState,
    supervisor: Supervisor,
    event: Event,
    delay: Option<Duration>,
)
    ensures
        ({
            let action = next(manager, supervisor, event, delay).action;
            &&& manager.liveness_interval is None ==> !(action is ReadStatus) && !(
            action is KillSurvivors)
            &&& event matches Event::LivenessTick { pid: Some(pid) }
                ==> manager.liveness_interval is Some && supervisor.tripped_for != Some(pid)
                ==> action == (ActionView::ReadStatus { pid })
            &&& event is LivenessChanged ==> action == (ActionView::SetInterval {
                period: manager.liveness_interval,
            })
        }),
{
}

/// A child is left alone unless its leader is a zombie with live siblings, or its process was
/// stopped.
pub proof fn lemma_healthy_processes_are_left_alone(
    manager: ManagerState,
    supervisor: Supervisor,
    event: Event,
    delay: Option<Duration>,
)
    requires
        supervisor.well_formed(manager),
        supervisor.accepts(event),
    ensures
        ({
            let step = next(manager, supervisor, event, delay);
            &&& step.action is KillSurvivors ==> (event matches Event::LeaderStatus {
                text: Some(text),
            } && crate::liveness::stuck_threads(text@) is Some)
            &&& step.action is Terminate ==> event is Cancelled
            &&& step.action is Kill ==> event is Cancelled || supervisor.phase is Terminating
            &&& step.supervisor.phase is Terminating ==> event is Cancelled
        }),
{
}

/// Once a process or its manager has been stopped, no child is spawned for it, no restart is
/// waited for, and none is announced.
pub proof fn lemma_a_stopped_process_is_not_restarted(
    manager: ManagerState,
    supervisor: Supervisor,
    event: Event,
    delay: Option<Duration>,
)
    ensures
        ({
            let action = next(manager, supervisor, event, delay).action;
            manager.is_cancelled(supervisor.key@) ==> {
                &&& !(action is Spawn)
                &&& !(action is Delay)
                &&& action matches ActionView::ReportExit { restarting, .. } ==> !restarting
            }
        }),
{
}

/// A restart that waits when the process or its manager is stopped does not happen: whatever
/// comes after, the announcement is taken back, no child is spawned, and none is said to have
/// been restarted.
pub proof fn lemma_a_stop_takes_back_a_pending_restart(supervisor: Supervisor, turns: Seq<Turn>)
    requires
        supervisor.owes_restart(),
        is_run(supervisor, turns),
        turns.len() > 0,
        turns[0].manager.is_cancelled(supervisor.key@),
        forall|i: int|
            0 <= i < turns.len() ==> (#[trigger] turns[i]).manager.follows(turns[0].manager),
    ensures
        forall|i: int|
            0 <= i < turns.len() ==> {
                let action = #[trigger] actions(supervisor, turns)[i];
                &&& !(action is Spawn)
                &&& !(action is Delay)
                &&& !(action is QueueRestarted)
                &&& action matches ActionView::ReportExit { restarting, .. } ==> !restarting
            },
        actions(supervisor, turns).last() is Finish ==> announced(actions(supervisor, turns))
            == Some(false),
{
    lemma_taking_back(supervisor, turns);
}

/// What has been stopped while a restart was pending goes about its end, turn by turn.
proof fn lemma_taking_back(supervisor: Supervisor, turns: Seq<Turn>)
    requires
        supervisor.owes_restart(),
        is_run(supervisor, turns),
        turns.len() > 0,
        turns[0].manager.is_cancelled(supervisor.key@),
        forall|i: int|
            0 <= i < turns.len() ==> (#[trigger] turns[i]).manager.follows(turns[0].manager),
    ensures
        actions(supervisor, turns).len() == turns.len(),
        forall|i: int|
            0 <= i < turns.len() ==> {
                let action = #[trigger] actions(supervisor, turns)[i];
                &&& !(action is Spawn)
                &&& !(action is Delay)
                &&& !(action is QueueRestarted)
                &&& action matches ActionView::ReportExit { restarting, .. } ==> !restarting
            },
        match supervisor_after(supervisor, turns).phase {
            Phase::Draining { .. } => true,
            Phase::ReportingExit { restarting, .. } => !restarting && announced(
                actions(supervisor, turns),
            ) == Some(false),
            Phase::Finished => announced(actions(supervisor, turns)) == Some(false),
            _ => false,
        },
    decreases turns.len(),
{
    let before = turns.drop_last();
    let acted = actions(supervisor, turns);
    assert(acted.drop_last() =~= actions(supervisor, before));
    lemma_supervisor_keeps_its_process(supervisor, before);
    assert(turns.last() == turns[turns.len() - 1]);
    if before.len() > 0 {
        assert forall|i: int| 0 <= i < before.len() implies (
        #[trigger] before[i]).manager.follows(before[0].manager) by {
            assert(before[i] == turns[i]);
        }
        lemma_taking_back(supervisor, before);
        assert forall|i: int| 0 <= i < before.len() implies acted[i] == #[trigger] actions(
            supervisor,
            before,
        )[i] by {
            assert(acted.drop_last()[i] == acted[i]);
        }
    }
}

/// The exit of a child is not reported before everything that it had written has been read: until
/// then lines are all that comes, and nothing is done but to queue their callbacks.
pub proof fn lemma_no_line_is_lost_at_an_exit(supervisor: Supervisor, turns: Seq<Turn>)
    requires
        is_run(supervisor, turns),
        turns.len() > 0,
        turns[0].event is Exited,
        turns[0].manager.manages(supervisor.key@),
        forall|i: int| 0 <= i < turns.len() ==> !((#[trigger] turns[i]).event is Drained),
    ensures
        supervisor_after(supervisor, turns).phase is Draining,
        actions(supervisor, turns).len() == turns.len(),
        actions(supervisor, turns)[0] is Drain,
        forall|i: int|
            0 < i < turns.len() ==> {
                &&& turns[i].event is StdoutLine || turns[i].event is StderrLine
                &&& #[trigger] actions(supervisor, turns)[i] == match noticed(
                    supervisor.callbacks,
                    turns[i].event,
                ) {
                    Some(Notice::Stdout { callback, line }) => ActionView::QueueStdout {
                        callback,
                        line,
                    },
                    Some(Notice::Stderr { callback, line }) => ActionView::QueueStderr {
                        callback,
                        line,
                    },
                    _ => ActionView::Select,
                }
            },
    decreases turns.len(),
{
    let before = turns.drop_last();
    let acted = actions(supervisor, turns);
    assert(acted.drop_last() =~= actions(supervisor, before));
    lemma_supervisor_keeps_its_process(supervisor, before);
    assert(turns.last() == turns[turns.len() - 1]);
    if before.len() > 0 {
        assert forall|i: int| 0 <= i < before.len() implies !((
        #[trigger] before[i]).event is Drained) by {
            assert(before[i] == turns[i]);
        }
        lemma_no_line_is_lost_at_an_exit(supervisor, before);
        assert forall|i: int| 0 <= i < before.len() implies acted[i] == #[trigger] actions(
            supervisor,
            before,
        )[i] && before[i] == turns[i] by {
            assert(acted.drop_last()[i] == acted[i]);
        }
    }
}

/// Whether a supervisor that was told to stop goes about it.
spec fn is_ending(phase: Phase, turns: int) -> bool {
    match phase {
        Phase::Terminating => turns == 1,
        Phase::Killing => turns <= 2,
        Phase::ReportingExit { code, restarting } => !restarting && code is Some && turns <= 3,
        Phase::Finished => turns <= 4,
        _ => false,
    }
}

/// A process that was stopped is not restarted. Its supervision ends after a few events, and
/// the exit code that is reported of it is never unknown.
pub proof fn lemma_a_stopped_process_ends(supervisor: Supervisor, turns: Seq<Turn>)
    requires
        is_run(supervisor, turns),
        turns.len() > 0,
        turns[0].event is Cancelled,
    ensures
        turns.len() <= 4,
        ({
            let action = actions(supervisor, turns).last();
            &&& !(action is Spawn) && !(action is Delay)
            &&& action matches ActionView::ReportExit { code, restarting, .. } ==> code is Some
                && !restarting
        }),
        supervisor_after(supervisor, turns).phase is Terminating || supervisor_after(
            supervisor,
            turns,
        ).phase is Killing || supervisor_after(supervisor, turns).phase is ReportingExit
            || supervisor_after(supervisor, turns).phase is Finished,
{
    lemma_ending(supervisor, turns);
}

/// A supervisor that was told to stop goes about it, turn by turn.
proof fn lemma_ending(supervisor: Supervisor, turns: Seq<Turn>)
    requires
        is_run(supervisor, turns),
        turns.len() > 0,
        turns[0].event is Cancelled,
    ensures
        is_ending(supervisor_after(supervisor, turns).phase, turns.len() as int),
        ({
            let action = actions(supervisor, turns).last();
            &&& !(action is Spawn) && !(action is Delay)
            &&& action matches ActionView::ReportExit { code, restarting, .. } ==> code is Some
                && !restarting
        }),
    decreases turns.len(),
{
    let before = turns.drop_last();
    if before.len() > 0 {
        assert(before[0] == turns[0]);
        lemma_ending(supervisor, before);
    } else {
        assert(turns.last() == turns[0]);
    }
}

/// The code that there is to report after `turns`: that of the child that exited or was asked to,
/// or the one of a child that had to be killed.
pub open spec fn code_to_report(turns: Seq<Turn>) -> Option<i32>
    decreases turns.len(),
{
    if turns.len() == 0 {
        None
    } else {
        match turns.last().event {
            Event::Exited { status: Some(status), .. } => status.code,
            Event::Exited { status: None, .. } => None,
            Event::Terminated { code: Some(code) } => Some(code),
            Event::Killed => Some(137),
            _ => code_to_report(turns.drop_last()),
        }
    }
}

/// A run is made of runs, and what is done in a turn does not depend on later ones.
proof fn lemma_run_up_to(supervisor: Supervisor, turns: Seq<Turn>, i: int)
    requires
        is_run(supervisor, turns),
        0 <= i < turns.len(),
    ensures
        is_run(supervisor, turns.take(i + 1)),
        actions(supervisor, turns).len() == turns.len(),
        actions(supervisor, turns.take(i + 1)).len() == i + 1,
        actions(supervisor, turns)[i] == actions(supervisor, turns.take(i + 1)).last(),
    decreases turns.len(),
{
    lemma_last_turn(supervisor, turns);
    let before = turns.drop_last();
    if i == turns.len() - 1 {
        assert(turns.take(i + 1) =~= turns);
        if before.len() > 0 {
            lemma_run_up_to(supervisor, before, i - 1);
        }
    } else {
        assert(turns.take(i + 1) =~= before.take(i + 1));
        lemma_run_up_to(supervisor, before, i);
    }
}

/// What is remembered of an exit is its code, until it has been reported for the last time.
proof fn lemma_the_code_is_kept(supervisor: Supervisor, turns: Seq<Turn>)
    requires
        supervisor.phase is Running,
        is_run(supervisor, turns),
    ensures
        match supervisor_after(supervisor, turns).phase {
            Phase::Draining { code, .. } => code == code_to_report(turns),
            Phase::ReportingExit { code, .. } => code == code_to_report(turns),
            Phase::Delaying { code } => code == code_to_report(turns),
            Phase::Spawning { code } => code == code_to_report(turns),
            _ => true,
        },
        turns.len() > 0 ==> (actions(supervisor, turns).last() matches ActionView::ReportExit {
            on_exit,
            code,
            ..
        } ==> code == code_to_report(turns) && on_exit == supervisor.callbacks.on_exit),
    decreases turns.len(),
{
    if turns.len() > 0 {
        lemma_last_turn(supervisor, turns);
        lemma_the_code_is_kept(supervisor, turns.drop_last());
        lemma_supervisor_keeps_its_process(supervisor, turns.drop_last());
    }
}

/// Whenever an exit is reported, and whenever such a report is corrected, it is with the code that
/// the child exited with, whether or not a restart follows. There is none only if the child had
/// none, or its status is unknown. A child that had to be killed is reported with 137.
pub proof fn lemma_every_report_carries_the_code(supervisor: Supervisor, turns: Seq<Turn>, i: int)
    requires
        supervisor.phase is Running,
        is_run(supervisor, turns),
        0 <= i < turns.len(),
    ensures
        actions(supervisor, turns)[i] matches ActionView::ReportExit { on_exit, code, .. }
            ==> code == code_to_report(turns.take(i + 1)) && on_exit
            == supervisor.callbacks.on_exit,
{
    lemma_run_up_to(supervisor, turns, i);
    lemma_the_code_is_kept(supervisor, turns.take(i + 1));
}

/// Whether nothing is stopped, and every child that exits has failed.
pub open spec fn keeps_failing(supervisor: Supervisor, turns: Seq<Turn>) -> bool {
    forall|i: int|
        0 <= i < turns.len() ==> {
            &&& !(#[trigger] turns[i]).manager.stopped
            &&& !turns[i].manager.processes[supervisor.key@].cancelled
            &&& !(turns[i].event is Cancelled)
            &&& turns[i].event matches Event::Exited { status: Some(status), .. }
                ==> !status.success
        }
}

/// Whether a supervisor has given its process up.
spec fn has_given_up(phase: Phase) -> bool {
    match phase {
        Phase::Draining { restarting, .. } => !restarting,
        Phase::ReportingExit { restarting, .. } => !restarting,
        Phase::Terminating | Phase::Killing | Phase::Finished => true,
        _ => false,
    }
}

/// One turn gives a process up only if no restart is left to attempt.
proof fn lemma_turn_gives_up_at_the_limit(turn: Turn, supervisor: Supervisor, limit: usize)
    requires
        supervisor.well_formed(turn.manager),
        supervisor.accepts(turn.event),
        turn.manager.manages(supervisor.key@),
        turn.manager.max_restarts == limit,
        !turn.manager.stopped,
        !turn.manager.processes[supervisor.key@].cancelled,
        !(turn.event is Cancelled),
        turn.event matches Event::Exited { status: Some(status), .. } ==> !status.success,
        has_given_up(supervisor.phase) ==> turn.manager.processes[supervisor.key@].restarts
            >= limit,
    ensures
        ({
            let step = next(turn.manager, supervisor, turn.event, turn.delay);
            has_given_up(step.supervisor.phase)
                ==> step.manager.processes[supervisor.key@].restarts >= limit
        }),
{
}

/// A process that keeps failing is given up only when no restart is left to attempt.
proof fn lemma_giving_up(supervisor: Supervisor, turns: Seq<Turn>, limit: usize)
    requires
        supervisor.phase is Running,
        is_run(supervisor, turns),
        is_restart_storm(supervisor, turns, limit),
        keeps_failing(supervisor, turns),
        turns.len() > 0,
    ensures
        has_given_up(supervisor_after(supervisor, turns).phase) ==> count_after(
            supervisor,
            turns,
            turns.len() - 1,
        ) >= limit,
    decreases turns.len(),
{
    let before = turns.drop_last();
    lemma_last_turn(supervisor, turns);
    assert(turns.last() == turns[turns.len() - 1]);
    if turns.len() > 1 {
        lemma_storm_before(supervisor, turns, limit);
        assert forall|i: int| 0 <= i < before.len() implies #[trigger] before[i] == turns[i] by {}
        lemma_giving_up(supervisor, before, limit);
    }
    lemma_turn_gives_up_at_the_limit(
        turns.last(),
        supervisor_after(supervisor, before),
        limit,
    );
}

/// A process that keeps failing is restarted as often as allowed before it is given up, attempts
/// that fail included: neither is it said that no restart will follow, nor does its supervision
/// end, before exactly that many have been attempted.
pub proof fn lemma_every_restart_is_had(supervisor: Supervisor, turns: Seq<Turn>, limit: usize)
    requires
        supervisor.phase is Running,
        is_run(supervisor, turns),
        is_restart_storm(supervisor, turns, limit),
        keeps_failing(supervisor, turns),
        turns.len() > 0,
        turns[0].manager.processes[supervisor.key@].restarts <= limit,
        actions(supervisor, turns).last() is Finish || (actions(supervisor, turns).last() matches
            ActionView::ReportExit { restarting, .. } && !restarting),
    ensures
        turns[0].manager.processes[supervisor.key@].restarts + attempts(
            actions(supervisor, turns),
        ) == limit,
{
    lemma_last_turn(supervisor, turns);
    lemma_giving_up(supervisor, turns, limit);
    lemma_attempts_are_counted(supervisor, turns, limit);
}

} // verus!
