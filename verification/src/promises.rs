//! What the operations are for: what becomes of each event and of each request, said of the
//! fields of what goes in and what comes out.

use crate::backoff::{
    lemma_longest_delay_grows, longest_delay, shortest_delay, step_count, stepped_delay,
};
use crate::draw::is_drawn;
use crate::error::Error;
use crate::liveness::stuck_threads;
use crate::manager::{
    is_initial, is_launch, process_text, Launch, ManagerState, ProcessManager, RestartMode,
};
use crate::process::{Handle, ProcessCallbacks, ProcessView};
use crate::supervisor::{next, ActionView, Event, ExitStatus, Phase, Supervisor};
use crate::table::ProcessDataView;
use crate::text::lemma_texts_with_spaces_are_quoted;
use crate::time::Duration;
use vstd::arithmetic::power2::{lemma2_to64, pow2};
use vstd::math::min;
use vstd::prelude::*;

verus! {

/// How long a process waits before it is restarted: not at all, for the span that was set, or for
/// a delay that is drawn, in steps of a millisecond, from all those between the base delay and
/// the base delay doubled once per restart, neither of which exceeds the ceiling.
pub proof fn lemma_the_delay_is_what_the_mode_says(
    manager: ManagerState,
    id: u64,
    delay: Option<Duration>,
)
    requires
        manager.allows_delay(id, delay),
    ensures
        manager.restart_mode is Instant ==> delay is None,
        manager.restart_mode matches RestartMode::Delayed(span) ==> delay == Some(span),
        manager.restart_mode matches RestartMode::ExponentialBackoff(base) ==> delay is Some && ({
            let restarts = manager.processes[id].restarts as nat;
            let ceiling = manager.max_backoff@ as int;
            let low = min(base@ as int, ceiling);
            let high = min((base@ * pow2(restarts)) as int, ceiling);
            let steps = min((high - low + 999_999) / 1_000_000, u64::MAX as int);
            &&& steps == 0 ==> delay->0@ == low
            &&& steps > 0 ==> exists|step: u64| #[trigger]
                is_drawn(0, steps as u64, step) && delay->0@ == min(low + step * 1_000_000, high)
        }),
{
    if let RestartMode::ExponentialBackoff(base) = manager.restart_mode {
        let restarts = manager.processes[id].restarts as nat;
        let ceiling = manager.max_backoff@ as int;
        let low = min(base@ as int, ceiling);
        let high = min((base@ * pow2(restarts)) as int, ceiling);
        let steps = min((high - low + 999_999) / 1_000_000, u64::MAX as int);
        let count = step_count(base, manager.max_backoff, restarts) as u64;
        lemma_longest_delay_grows(base, manager.max_backoff, 0, restarts);
        assert(pow2(0) == 1) by {
            lemma2_to64();
        }
        assert(count == steps);
        if count > 0 {
            let step = choose|step: u64| #[trigger]
                is_drawn(0, count, step) && delay->0@ == stepped_delay(
                    base,
                    manager.max_backoff,
                    restarts,
                    step as nat,
                );
            assert(is_drawn(0, steps as u64, step) && delay->0@ == min(
                low + step * 1_000_000,
                high,
            ));
        }
    }
}

/// What a delay that is drawn can be: every step leads to another delay, from the base delay at
/// step zero to the longest one at the last step, and the steps are a millisecond apart but for
/// the last one.
pub proof fn lemma_the_steps_span_the_delays(
    base: Duration,
    max_backoff: Duration,
    restarts: nat,
    step: nat,
)
    requires
        step <= step_count(base, max_backoff, restarts),
    ensures
        ({
            let low = min(base@ as int, max_backoff@ as int);
            let high = min((base@ * pow2(restarts)) as int, max_backoff@ as int);
            let steps = step_count(base, max_backoff, restarts);
            let delay = stepped_delay(base, max_backoff, restarts, step);
            &&& step == 0 ==> delay == low
            &&& step < steps ==> delay == low + step * 1_000_000 < high
            &&& step == steps && steps < u64::MAX ==> delay == high
        }),
{
    lemma_longest_delay_grows(base, max_backoff, 0, restarts);
    assert(pow2(0) == 1) by {
        lemma2_to64();
    }
}

/// Which events are waited for: while the child runs, whatever can happen to it, and otherwise
/// what came of the last action.
pub proof fn lemma_what_is_waited_for(supervisor: Supervisor, event: Event)
    ensures
        supervisor.accepts(event) <==> match supervisor.phase {
            Phase::Running => match event {
                Event::LivenessTick { pid } | Event::Cancelled { pid } => pid matches Some(pid)
                    ==> pid <= 0x7fff_ffff,
                _ => event is LivenessChanged || event is StdinMessage || event is StdoutLine
                    || event is StderrLine || event is Exited,
            },
            Phase::CheckingLeader { .. } => event is LeaderStatus,
            Phase::Terminating => event is Terminated,
            Phase::Killing => event is Killed,
            Phase::Draining { .. } => event is StdoutLine || event is StderrLine
                || event is Drained,
            Phase::ReportingExit { .. } => event is ExitReported,
            Phase::Delaying { .. } => event is DelayElapsed,
            Phase::Spawning { .. } => event is Spawned || event is SpawnFailed,
            Phase::Finished => false,
        },
{
}

/// An event of one process leaves every setting and every other process alone, and of the process
/// itself what was configured. Its process id and its start change when a child was spawned and
/// at no other time, its counter when a child exits or a restart is attempted, and what produces
/// file descriptors when a restart is attempted.
pub proof fn lemma_what_an_event_leaves_alone(
    manager: ManagerState,
    supervisor: Supervisor,
    event: Event,
    delay: Option<Duration>,
    other: u64,
)
    requires
        supervisor.well_formed(manager),
        supervisor.accepts(event),
    ensures
        ({
            let step = next(manager, supervisor, event, delay);
            let after = step.manager;
            let id = supervisor.key@;
            let old_entry = manager.processes[id];
            let new_entry = after.processes[id];
            &&& after.restart_mode == manager.restart_mode
            &&& after.max_restarts == manager.max_restarts
            &&& after.max_backoff == manager.max_backoff
            &&& after.liveness_interval == manager.liveness_interval
            &&& after.stopped == manager.stopped
            &&& after.processes.contains_key(other) == manager.processes.contains_key(other)
            &&& other != id ==> after.processes[other] == manager.processes[other]
            &&& step.supervisor.key == supervisor.key
            &&& step.supervisor.callbacks == supervisor.callbacks
            &&& new_entry.process.executable == old_entry.process.executable
            &&& new_entry.process.args == old_entry.process.args
            &&& new_entry.process.env == old_entry.process.env
            &&& new_entry.process.stdin_tx == old_entry.process.stdin_tx
            &&& new_entry.process.stdin_rx == old_entry.process.stdin_rx
            &&& new_entry.process.cancel_timeout == old_entry.process.cancel_timeout
            &&& new_entry.process.callbacks.on_stdout == old_entry.process.callbacks.on_stdout
            &&& new_entry.process.callbacks.on_stderr == old_entry.process.callbacks.on_stderr
            &&& new_entry.process.callbacks.on_start == old_entry.process.callbacks.on_start
            &&& new_entry.process.callbacks.on_exit == old_entry.process.callbacks.on_exit
            &&& new_entry.cancelled == old_entry.cancelled
            &&& new_entry.cancel_timeout == old_entry.cancel_timeout
            &&& !(event is Spawned) ==> new_entry.pid == old_entry.pid && new_entry.started_at
                == old_entry.started_at
            &&& !(event is Exited) && !(step.action is Spawn) ==> new_entry.restarts
                == old_entry.restarts
            &&& !(step.action is Spawn) ==> new_entry.process.callbacks.fds
                == old_entry.process.callbacks.fds
            &&& step.supervisor.tripped_for != supervisor.tripped_for ==> step.action
                is KillSurvivors
        }),
{
}

/// A tick is answered by a look at the child if the check is enabled, the child has an id, and it
/// has not been found dead before. A look that finds its leader dead with live siblings, while
/// the check is enabled, is answered by killing exactly those siblings. In every other case
/// nothing is done, and the child is waited for as before.
pub proof fn lemma_what_a_check_does(
    manager: ManagerState,
    supervisor: Supervisor,
    pid: Option<u32>,
    text: Option<String>,
    delay: Option<Duration>,
)
    ensures
        ({
            let step = next(manager, supervisor, Event::LivenessTick { pid }, delay);
            if manager.liveness_interval is Some && pid is Some && supervisor.tripped_for != pid {
                &&& step.action == (ActionView::ReadStatus { pid: pid->0 })
                &&& step.supervisor.phase == (Phase::CheckingLeader { pid: pid->0 })
            } else {
                step.action is Select && step.supervisor.phase is Running
            }
        }),
        supervisor.phase matches Phase::CheckingLeader { pid } ==> ({
            let step = next(manager, supervisor, Event::LeaderStatus { text }, delay);
            let found = text is Some && stuck_threads(text->0@) is Some;
            &&& step.supervisor.phase is Running
            &&& found && manager.liveness_interval is Some ==> {
                &&& step.supervisor.tripped_for == Some(pid)
                &&& step.action matches ActionView::KillSurvivors { target, survivors }
                &&& survivors + 1 == stuck_threads(text->0@)->0
                &&& pid == 0 ==> target is None
                &&& 0 < pid <= 0x7fff_ffff ==> target is Some && target->0 == pid
            }
            &&& !(found && manager.liveness_interval is Some) ==> step.action is Select
        }),
{
    if text is Some && stuck_threads(text->0@) is Some {
        crate::liveness::lemma_only_zombies_with_siblings_are_stuck(text->0@);
    }
}

/// A process that is stopped while its child has an id is asked to exit, with the timeout that was
/// configured for it. If the child then exits with a code, that very code is reported and the
/// child is not killed. It is killed if there is no code or no id, and then, and only then, the
/// code is 137. No restart follows either way.
pub proof fn lemma_how_a_process_is_stopped(
    manager: ManagerState,
    supervisor: Supervisor,
    pid: Option<u32>,
    code: Option<i32>,
    delay: Option<Duration>,
)
    ensures
        ({
            let step = next(manager, supervisor, Event::Cancelled { pid }, delay);
            match pid {
                Some(pid) => {
                    &&& step.supervisor.phase is Terminating
                    &&& step.action matches ActionView::Terminate { target, timeout }
                    &&& manager.processes.contains_key(supervisor.key@) ==> timeout
                        == manager.processes[supervisor.key@].cancel_timeout
                    &&& pid == 0 ==> target is None
                    &&& 0 < pid <= 0x7fff_ffff ==> target is Some && target->0 == pid
                },
                None => step.action is Kill && step.supervisor.phase is Killing,
            }
        }),
        ({
            let step = next(manager, supervisor, Event::Terminated { code }, delay);
            match code {
                Some(code) => {
                    &&& step.action == (ActionView::ReportExit {
                        on_exit: supervisor.callbacks.on_exit,
                        code: Some(code),
                        restarting: false,
                    })
                    &&& step.supervisor.phase == (Phase::ReportingExit {
                        code: Some(code),
                        restarting: false,
                    })
                },
                None => step.action is Kill && step.supervisor.phase is Killing,
            }
        }),
        ({
            let step = next(manager, supervisor, Event::Killed, delay);
            &&& step.action == (ActionView::ReportExit {
                on_exit: supervisor.callbacks.on_exit,
                code: Some(137),
                restarting: false,
            })
            &&& step.supervisor.phase == (Phase::ReportingExit {
                code: Some(137),
                restarting: false,
            })
        }),
{
}

/// A message is written to stdin as it is, and a line is handed as it is to the callback for the
/// stream that it was written to, if there is one. Neither changes what is waited for.
pub proof fn lemma_what_passes_through(
    manager: ManagerState,
    supervisor: Supervisor,
    message: Vec<u8>,
    line: String,
    delay: Option<Duration>,
)
    ensures
        ({
            let step = next(manager, supervisor, Event::StdinMessage { message }, delay);
            &&& step.action == (ActionView::WriteStdin { message: message@ })
            &&& supervisor.phase is Running ==> step.supervisor == supervisor
        }),
        ({
            let step = next(manager, supervisor, Event::StdoutLine { line }, delay);
            &&& step.supervisor == supervisor
            &&& supervisor.callbacks.on_stdout matches Some(callback) ==> step.action == (
            ActionView::QueueStdout { callback, line: line@ })
            &&& supervisor.callbacks.on_stdout is None ==> step.action is Select
        }),
        ({
            let step = next(manager, supervisor, Event::StderrLine { line }, delay);
            &&& step.supervisor == supervisor
            &&& supervisor.callbacks.on_stderr matches Some(callback) ==> step.action == (
            ActionView::QueueStderr { callback, line: line@ })
            &&& supervisor.callbacks.on_stderr is None ==> step.action is Select
        }),
{
}

/// A process that fails is to be restarted if, and only if, fewer restarts have been attempted
/// than are allowed, whatever the two numbers. What was attempted before counts unless the child
/// had been up for a minute, and then it is forgotten. A process that exits as it should is not to
/// be restarted.
pub proof fn lemma_restarts_are_used_up(
    manager: ManagerState,
    id: u64,
    success: bool,
    now: Duration,
)
    ensures
        ({
            let entry = manager.processes[id];
            let stable = now@ >= entry.started_at@ + 60_000_000_000;
            let counted = if stable {
                0
            } else {
                entry.restarts
            };
            &&& manager.after_exit(id, now).processes[id].restarts == counted
            &&& manager.restarts_after_exit(id, success, now) <==> !success && counted
                < manager.max_restarts
        }),
{
}

/// The counter of a process that fails decides alike for any two of them: whoever is restarted
/// would also be with fewer attempts behind it or more allowed.
pub proof fn lemma_more_room_means_more_restarts(
    first: ManagerState,
    second: ManagerState,
    id: u64,
    now: Duration,
)
    requires
        second.processes[id].started_at == first.processes[id].started_at,
        second.processes[id].restarts <= first.processes[id].restarts,
        second.max_restarts >= first.max_restarts,
        first.restarts_after_exit(id, false, now),
    ensures
        second.restarts_after_exit(id, false, now),
{
}

/// What is left to read is read when a child has exited. Whether a restart is to follow is decided
/// at that moment, and what is to be reported is the code that the child exited with, be it
/// restarted or not. Of a child whose status is unknown there is no code, and it has failed.
pub proof fn lemma_what_an_exit_does(
    manager: ManagerState,
    supervisor: Supervisor,
    status: Option<ExitStatus>,
    now: Duration,
    delay: Option<Duration>,
)
    ensures
        ({
            let id = supervisor.key@;
            let entry = manager.processes[id];
            let stable = now@ >= entry.started_at@ + 60_000_000_000;
            let counted = if stable {
                0
            } else {
                entry.restarts
            };
            let step = next(manager, supervisor, Event::Exited { status, now }, delay);
            &&& manager.processes.contains_key(id) ==> {
                &&& step.action is Drain
                &&& step.manager.processes[id].restarts == counted
                &&& step.supervisor.phase matches Phase::Draining { code, restarting }
                &&& status matches Some(status) ==> code == status.code && (restarting
                    <==> !status.success && counted < manager.max_restarts)
                &&& status is None ==> code is None && (restarting <==> counted
                    < manager.max_restarts)
            }
            &&& !manager.processes.contains_key(id) ==> step.action is Finish
                && step.supervisor.phase is Finished && step.manager == manager
        }),
{
}

/// From the exit of a managed process to its end or its next child: the exit is reported with its
/// code, and with a restart only if one was decided on and nothing has been stopped. After the
/// report it ends, or it waits, or it takes the restart back. After the wait the restart is
/// attempted, or taken back.
pub proof fn lemma_from_an_exit_to_the_next_child(
    manager: ManagerState,
    supervisor: Supervisor,
    delay: Option<Duration>,
)
    requires
        manager.processes.contains_key(supervisor.key@),
    ensures
        supervisor.phase matches Phase::Draining { code, restarting } ==> ({
            let step = next(manager, supervisor, Event::Drained, delay);
            let announced = restarting && !(manager.stopped
                || manager.processes[supervisor.key@].cancelled);
            &&& step.action == (ActionView::ReportExit {
                on_exit: supervisor.callbacks.on_exit,
                code,
                restarting: announced,
            })
            &&& step.supervisor.phase == (Phase::ReportingExit { code, restarting: announced })
        }),
        supervisor.phase matches Phase::ReportingExit { code, restarting } ==> ({
            let step = next(manager, supervisor, Event::ExitReported, delay);
            let halted = manager.stopped || manager.processes[supervisor.key@].cancelled;
            if !restarting {
                step.action is Finish && step.supervisor.phase is Finished
            } else if halted {
                &&& step.action == (ActionView::ReportExit {
                    on_exit: supervisor.callbacks.on_exit,
                    code,
                    restarting: false,
                })
                &&& step.supervisor.phase == (Phase::ReportingExit { code, restarting: false })
            } else {
                &&& step.action == (ActionView::Delay { drain_stdin: true, delay })
                &&& step.supervisor.phase == (Phase::Delaying { code })
            }
        }),
        supervisor.phase matches Phase::Delaying { code } ==> ({
            let entry = manager.processes[supervisor.key@];
            let step = next(manager, supervisor, Event::DelayElapsed, delay);
            if manager.stopped || entry.cancelled {
                &&& step.action == (ActionView::ReportExit {
                    on_exit: supervisor.callbacks.on_exit,
                    code,
                    restarting: false,
                })
                &&& step.supervisor.phase == (Phase::ReportingExit { code, restarting: false })
            } else {
                &&& step.action matches ActionView::Spawn { command, fds }
                &&& command.executable == entry.process.executable
                &&& command.args == entry.process.args
                &&& command.env == entry.process.env
                &&& fds == entry.process.callbacks.fds
                &&& step.supervisor.phase == (Phase::Spawning { code })
                &&& entry.restarts < usize::MAX
                    ==> step.manager.processes[supervisor.key@].restarts == entry.restarts + 1
                &&& step.manager.processes[supervisor.key@].process.callbacks.fds is None
            }
        }),
{
}

/// A child that was spawned in place of another one is known by its own id and by its own start,
/// and its callback is told. One that could not be spawned is attempted again as long as attempts
/// are left and nothing has been stopped, and is taken back otherwise.
pub proof fn lemma_what_comes_of_an_attempt(
    manager: ManagerState,
    supervisor: Supervisor,
    pid: Option<u32>,
    now: Duration,
    delay: Option<Duration>,
)
    requires
        manager.processes.contains_key(supervisor.key@),
    ensures
        ({
            let step = next(manager, supervisor, Event::Spawned { pid, now }, delay);
            &&& step.manager.processes[supervisor.key@].pid == pid
            &&& step.manager.processes[supervisor.key@].started_at == now
            &&& step.supervisor.phase is Running
            &&& supervisor.callbacks.on_start matches Some(callback) ==> step.action == (
            ActionView::QueueRestarted { callback })
            &&& supervisor.callbacks.on_start is None ==> step.action is Select
        }),
        supervisor.phase matches Phase::Spawning { code } ==> ({
            let entry = manager.processes[supervisor.key@];
            let step = next(manager, supervisor, Event::SpawnFailed, delay);
            if entry.restarts < manager.max_restarts && !manager.stopped && !entry.cancelled {
                &&& step.action == (ActionView::Delay { drain_stdin: false, delay })
                &&& step.supervisor.phase == (Phase::Delaying { code })
            } else {
                &&& step.action == (ActionView::ReportExit {
                    on_exit: supervisor.callbacks.on_exit,
                    code,
                    restarting: false,
                })
                &&& step.supervisor.phase == (Phase::ReportingExit { code, restarting: false })
            }
        }),
{
}

/// How long a child was up is measured from its own start: one that exits less than a minute after
/// it was spawned leaves the counter as it was, whenever the process was first started, and one
/// that exits later has it forgiven.
pub proof fn lemma_uptime_is_measured_from_the_spawn(
    manager: ManagerState,
    supervisor: Supervisor,
    pid: Option<u32>,
    spawned: Duration,
    later: ManagerState,
    status: Option<ExitStatus>,
    exited: Duration,
    delay: Option<Duration>,
)
    requires
        manager.processes.contains_key(supervisor.key@),
        later.processes.contains_key(supervisor.key@),
        later.processes[supervisor.key@].started_at == next(
            manager,
            supervisor,
            Event::Spawned { pid, now: spawned },
            delay,
        ).manager.processes[supervisor.key@].started_at,
    ensures
        ({
            let after = next(later, supervisor, Event::Exited { status, now: exited }, delay);
            let restarts = after.manager.processes[supervisor.key@].restarts;
            &&& exited@ < spawned@ + 60_000_000_000 ==> restarts
                == later.processes[supervisor.key@].restarts
            &&& exited@ >= spawned@ + 60_000_000_000 ==> restarts == 0
        }),
{
}

/// A new manager manages nothing, restarts a process three times, at once, lets a backoff grow to
/// a minute, and checks on its processes every five seconds.
pub proof fn lemma_what_a_new_manager_is(manager: ManagerState, id: u64)
    requires
        is_initial(manager),
    ensures
        !manager.processes.contains_key(id),
        !manager.stopped,
        manager.restart_mode is Instant,
        manager.max_restarts == 3,
        manager.max_backoff@ == 60_000_000_000,
        manager.liveness_interval is Some,
        manager.liveness_interval->0@ == 5_000_000_000,
{
}

/// A process is started if, and only if, the manager has not been stopped and the process has a
/// receiver. It is then known as it was configured, with nothing attempted and nobody's id, and
/// its callbacks, its receiver and what to make a child from are handed over as they are. Nothing
/// else changes.
pub proof fn lemma_what_a_start_does(
    before: ManagerState,
    process: ProcessView,
    now: Duration,
    launch: Result<Launch, Error>,
    after: ManagerState,
    other: u64,
)
    requires
        is_launch(before, process, now, launch, after),
    ensures
        launch is Ok <==> !before.stopped && process.stdin_rx is Some,
        launch matches Err(error) ==> after == before && error == (if before.stopped {
            Error::Stopped
        } else {
            Error::MissingStdinReceiver
        }),
        after.restart_mode == before.restart_mode,
        after.max_restarts == before.max_restarts,
        after.max_backoff == before.max_backoff,
        after.liveness_interval == before.liveness_interval,
        after.stopped == before.stopped,
        launch matches Ok(launch) ==> ({
            let id = launch.key@;
            let entry = after.processes[id];
            &&& !before.processes.contains_key(id)
            &&& after.processes.contains_key(id)
            &&& other != id ==> after.processes.contains_key(other)
                == before.processes.contains_key(other)
            &&& other != id ==> after.processes[other] == before.processes[other]
            &&& entry.process.executable == process.executable
            &&& entry.process.args == process.args
            &&& entry.process.env == process.env
            &&& entry.process.stdin_tx == process.stdin_tx
            &&& entry.process.stdin_rx is None
            &&& entry.process.callbacks.fds is None
            &&& entry.pid is None
            &&& entry.restarts == 0
            &&& entry.started_at == now
            &&& !entry.cancelled
            &&& entry.cancel_timeout == process.cancel_timeout
            &&& launch.command@.executable == process.executable
            &&& launch.command@.args == process.args
            &&& launch.command@.env == process.env
            &&& launch.callbacks.on_stdout == process.callbacks.on_stdout
            &&& launch.callbacks.on_stderr == process.callbacks.on_stderr
            &&& launch.callbacks.on_start == process.callbacks.on_start
            &&& launch.callbacks.on_exit == process.callbacks.on_exit
            &&& launch.fds == process.callbacks.fds
            &&& process.stdin_rx == Some(launch.stdin_rx)
        }),
{
}

/// A process that is asked for is found if, and only if, it is managed. It is to end if it or the
/// manager has been stopped, within its own timeout, and it has restarts left as long as fewer
/// have been attempted than are allowed.
pub proof fn lemma_what_is_known_of_a_process(manager: ManagerState, id: u64)
    ensures
        manager.manages(id) <==> manager.processes.contains_key(id),
        manager.answer(id) is Ok <==> manager.processes.contains_key(id),
        manager.answer(id) matches Err(error) ==> error == Error::NonExistantProcess,
        manager.processes.contains_key(id) ==> (manager.is_cancelled(id) <==> manager.stopped
            || manager.processes[id].cancelled),
        !manager.processes.contains_key(id) ==> manager.is_cancelled(id) == manager.stopped,
        manager.processes.contains_key(id) ==> manager.cancel_timeout(id)
            == manager.processes[id].cancel_timeout,
        !manager.processes.contains_key(id) ==> manager.cancel_timeout(id) is None,
        manager.processes.contains_key(id) ==> (manager.exhausted(id) <==> manager.max_restarts
            <= manager.processes[id].restarts),
        !manager.processes.contains_key(id) ==> manager.exhausted(id),
{
}

/// Whether two states differ in nothing but what is known of one process.
pub open spec fn differ_in_one(before: ManagerState, after: ManagerState, id: u64) -> bool {
    &&& after.restart_mode == before.restart_mode
    &&& after.max_restarts == before.max_restarts
    &&& after.max_backoff == before.max_backoff
    &&& after.liveness_interval == before.liveness_interval
    &&& after.stopped == before.stopped
    &&& after.processes.dom() == before.processes.dom()
    &&& forall|other: u64|
        other != id && before.processes.contains_key(other) ==> #[trigger] after.processes[other]
            == before.processes[other]
}

/// A change of a managed process changes what it is about, to what was asked for, and nothing
/// else of it and of anything else.
pub proof fn lemma_what_a_change_does(
    manager: ManagerState,
    id: u64,
    args: Seq<Seq<char>>,
    env: Seq<(Seq<char>, Seq<char>)>,
    fds: Handle,
    pid: Option<u32>,
    now: Duration,
)
    requires
        manager.processes.contains_key(id),
    ensures
        ({
            let old_entry = manager.processes[id];
            let stopped = manager.with_cancelled(id);
            let with_args = manager.with_args(id, args);
            let with_env = manager.with_env(id, env);
            let with_fds = manager.with_fds(id, fds);
            let with_pid = manager.with_pid(id, pid);
            let restarted = manager.after_restart(id, pid, now);
            let attempted = manager.after_attempt(id);
            let exited = manager.after_exit(id, now);
            &&& differ_in_one(manager, stopped, id)
            &&& differ_in_one(manager, with_args, id)
            &&& differ_in_one(manager, with_env, id)
            &&& differ_in_one(manager, with_fds, id)
            &&& differ_in_one(manager, with_pid, id)
            &&& differ_in_one(manager, restarted, id)
            &&& differ_in_one(manager, attempted, id)
            &&& differ_in_one(manager, exited, id)
            &&& stopped.processes[id] == (ProcessDataView { cancelled: true, ..old_entry })
            &&& with_args.processes[id] == (ProcessDataView {
                process: ProcessView { args, ..old_entry.process },
                ..old_entry
            })
            &&& with_env.processes[id] == (ProcessDataView {
                process: ProcessView { env, ..old_entry.process },
                ..old_entry
            })
            &&& with_fds.processes[id] == (ProcessDataView {
                process: ProcessView {
                    callbacks: ProcessCallbacks {
                        fds: Some(fds),
                        ..old_entry.process.callbacks
                    },
                    ..old_entry.process
                },
                ..old_entry
            })
            &&& with_pid.processes[id] == (ProcessDataView { pid, ..old_entry })
            &&& restarted.processes[id] == (ProcessDataView { pid, started_at: now, ..old_entry })
            &&& attempted.processes[id].process == (ProcessView {
                callbacks: ProcessCallbacks { fds: None, ..old_entry.process.callbacks },
                ..old_entry.process
            })
            &&& old_entry.restarts < usize::MAX ==> attempted.processes[id].restarts
                == old_entry.restarts + 1
            &&& attempted.processes[id] == (ProcessDataView {
                process: attempted.processes[id].process,
                restarts: attempted.processes[id].restarts,
                ..old_entry
            })
            &&& exited.processes[id] == (ProcessDataView {
                restarts: exited.processes[id].restarts,
                ..old_entry
            })
        }),
{
    assert(manager.with_cancelled(id).processes.dom() =~= manager.processes.dom());
    assert(manager.with_args(id, args).processes.dom() =~= manager.processes.dom());
    assert(manager.with_env(id, env).processes.dom() =~= manager.processes.dom());
    assert(manager.with_fds(id, fds).processes.dom() =~= manager.processes.dom());
    assert(manager.with_pid(id, pid).processes.dom() =~= manager.processes.dom());
    assert(manager.after_restart(id, pid, now).processes.dom() =~= manager.processes.dom());
    assert(manager.after_attempt(id).processes.dom() =~= manager.processes.dom());
    assert(manager.after_exit(id, now).processes.dom() =~= manager.processes.dom());
}

/// There is room for another process as long as a slot that 32 bits can number is left for it.
pub proof fn lemma_when_there_is_room(manager: ProcessManager)
    ensures
        manager.has_room() <==> manager@.processes.len() < 0xffff_fffe,
{
}

/// The text of a process is made of its environment variables, its executable, quoted if it holds
/// a space, and its arguments, in this order and with a space between them.
pub proof fn lemma_how_a_process_is_described(process: ProcessView)
    ensures
        process_text(process) == crate::process::env_text(process.env) + seq![' '] + (
        if process.executable.contains(' ') {
            seq!['"'] + process.executable + seq!['"']
        } else {
            process.executable
        }) + seq![' '] + crate::process::args_text(process.args),
{
    reveal_strlit(" ");
    lemma_texts_with_spaces_are_quoted(process.executable);
    assert(" "@ =~= seq![' ']);
}

/// A supervisor goes with any manager while its child runs or is being stopped, and when it has
/// finished. Otherwise it takes a child that has not been found dead before, a counter that can
/// still count, or a process that is managed.
pub proof fn lemma_when_a_supervisor_goes_with_a_manager(
    manager: ManagerState,
    supervisor: Supervisor,
)
    ensures
        ({
            let managed = manager.processes.contains_key(supervisor.key@);
            let countable = managed ==> manager.processes[supervisor.key@].restarts < usize::MAX;
            supervisor.well_formed(manager) <==> match supervisor.phase {
                Phase::CheckingLeader { pid } => pid <= 0x7fff_ffff && supervisor.tripped_for
                    != Some(pid),
                Phase::Draining { restarting, .. } => restarting ==> countable,
                Phase::ReportingExit { restarting, .. } => restarting ==> countable,
                Phase::Delaying { .. } => countable,
                Phase::Spawning { .. } => managed,
                _ => true,
            }
        }),
{
}

/// The shortest and the longest delay are the base delay, and the base delay doubled once per
/// restart, neither of which exceeds the ceiling.
pub proof fn lemma_what_delays_lie_between(base: Duration, max_backoff: Duration, restarts: nat)
    ensures
        shortest_delay(base, max_backoff) == min(base@ as int, max_backoff@ as int),
        longest_delay(base, max_backoff, restarts) == min(
            (base@ * pow2(restarts)) as int,
            max_backoff@ as int,
        ),
{
}

} // verus!
