//! Sequences of calls on a manager, and what they leave behind.

use crate::error::Error;
use crate::manager::{is_initial, is_launch, Launch, ManagerState, RestartMode};
use crate::process::{updated_env, Handle, ProcessView};
use crate::promises::lemma_what_a_start_does;
use crate::supervisor::{next, Event, SpawnOutcome, Supervisor};
use crate::table::NULL_KEY_ID;
use crate::time::Duration;
use vstd::prelude::*;

verus! {

/// A call that may change a manager. Processes go by the numbers of their keys.
pub enum Call {
    SetRestartMode { restart_mode: RestartMode },
    SetMaxRestarts { max_restarts: usize },
    SetMaxBackoff { max_backoff: Duration },
    SetLivenessInterval { interval: Option<Duration> },
    Stop,
    StopProcess { id: u64 },
    StartProcess { process: ProcessView, now: Duration, launch: Result<Launch, Error> },
    UpdateProcessArgs { id: u64, args: Seq<Seq<char>> },
    UpdateProcessEnv { id: u64, update: Seq<(Seq<char>, Seq<char>)> },
    UpdateProcessFds { id: u64, fds: Handle },
    ClearProcessEnv { id: u64 },
    ProcessStarted { id: u64, outcome: SpawnOutcome },
    ChildSpawned { id: u64, pid: Option<u32> },
    ChildExited { id: u64, now: Duration },
    RestartProcess { id: u64 },
    ChildRespawned { id: u64, pid: Option<u32>, now: Duration },
    Advance { supervisor: Supervisor, event: Event, delay: Option<Duration> },
}

/// The state `changed` if the process is managed, and `before` otherwise.
pub open spec fn if_managed(before: ManagerState, id: u64, changed: ManagerState) -> ManagerState {
    if before.manages(id) {
        changed
    } else {
        before
    }
}

/// Whether `call` takes a manager from `before` to `after`.
pub open spec fn called(before: ManagerState, call: Call, after: ManagerState) -> bool {
    match call {
        Call::SetRestartMode { restart_mode } => after == (ManagerState {
            restart_mode,
            ..before
        }),
        Call::SetMaxRestarts { max_restarts } => after == (ManagerState {
            max_restarts,
            ..before
        }),
        Call::SetMaxBackoff { max_backoff } => after == (ManagerState { max_backoff, ..before }),
        Call::SetLivenessInterval { interval } => after == (ManagerState {
            liveness_interval: interval,
            ..before
        }),
        Call::Stop => after == (ManagerState { stopped: true, ..before }),
        Call::StopProcess { id } => after == if_managed(before, id, before.with_cancelled(id)),
        Call::StartProcess { process, now, launch } => is_launch(
            before,
            process,
            now,
            launch,
            after,
        ),
        Call::UpdateProcessArgs { id, args } => after == if_managed(
            before,
            id,
            before.with_args(id, args),
        ),
        Call::UpdateProcessEnv { id, update } => after == if_managed(
            before,
            id,
            before.with_env(id, updated_env(before.processes[id].process.env, update)),
        ),
        Call::UpdateProcessFds { id, fds } => after == if_managed(
            before,
            id,
            before.with_fds(id, fds),
        ),
        Call::ClearProcessEnv { id } => after == if_managed(
            before,
            id,
            before.with_env(id, Seq::empty()),
        ),
        Call::ProcessStarted { id, outcome } => before.manages(id) && match outcome {
            SpawnOutcome::Spawned { pid } => after == before.with_pid(id, pid),
            SpawnOutcome::Failed => after == before,
        },
        Call::ChildSpawned { id, pid } => before.manages(id) && after == before.with_pid(id, pid),
        Call::ChildExited { id, now } => after == if_managed(before, id, before.after_exit(id, now)),
        Call::RestartProcess { id } => after == if_managed(before, id, before.after_attempt(id)),
        Call::ChildRespawned { id, pid, now } => before.manages(id) && after
            == before.after_restart(id, pid, now),
        Call::Advance { supervisor, event, delay } => {
            &&& supervisor.well_formed(before)
            &&& supervisor.accepts(event)
            &&& after == next(before, supervisor, event, delay).manager
        },
    }
}

/// Whether a new manager goes through `states`, from one to the next by one of `calls`.
pub open spec fn is_history(states: Seq<ManagerState>, calls: Seq<Call>) -> bool {
    &&& states.len() == calls.len() + 1
    &&& is_initial(states[0])
    &&& forall|i: int|
        0 <= i < calls.len() ==> called(states[i], #[trigger] calls[i], states[i + 1])
}

/// A history without its last call is one.
proof fn lemma_history_before(states: Seq<ManagerState>, calls: Seq<Call>)
    requires
        is_history(states, calls),
        calls.len() > 0,
    ensures
        is_history(states.drop_last(), calls.drop_last()),
        called(states.drop_last().last(), calls.last(), states.last()),
{
    assert forall|i: int| 0 <= i < calls.drop_last().len() implies called(
        states.drop_last()[i],
        #[trigger] calls.drop_last()[i],
        states.drop_last()[i + 1],
    ) by {
        assert(calls.drop_last()[i] == calls[i]);
    }
    assert(calls.last() == calls[calls.len() - 1]);
}

/// Whatever is called, nothing that was managed is forgotten or becomes another process, and
/// nothing that was stopped runs again.
pub proof fn lemma_every_call_follows(before: ManagerState, call: Call, after: ManagerState)
    requires
        called(before, call, after),
    ensures
        after.follows(before),
{
}

/// A manager is stopped by a call that stops it and by nothing else.
pub proof fn lemma_nothing_else_stops_a_manager(
    before: ManagerState,
    call: Call,
    after: ManagerState,
)
    requires
        called(before, call, after),
    ensures
        call is Stop ==> after.stopped,
        !(call is Stop) ==> after.stopped == before.stopped,
{
}

/// A manager is stopped if, and only if, it was stopped at some time before.
pub proof fn lemma_stopped_means_that_it_was_stopped(states: Seq<ManagerState>, calls: Seq<Call>)
    requires
        is_history(states, calls),
    ensures
        states.last().stopped <==> exists|i: int|
            0 <= i < calls.len() && #[trigger] calls[i] is Stop,
    decreases calls.len(),
{
    if calls.len() > 0 {
        let earlier = calls.drop_last();
        lemma_history_before(states, calls);
        lemma_stopped_means_that_it_was_stopped(states.drop_last(), earlier);
        assert(calls.last() == calls[calls.len() - 1]);
        if exists|i: int| 0 <= i < earlier.len() && #[trigger] earlier[i] is Stop {
            let i = choose|i: int| 0 <= i < earlier.len() && #[trigger] earlier[i] is Stop;
            assert(calls[i] is Stop);
        }
        if exists|i: int| 0 <= i < calls.len() && #[trigger] calls[i] is Stop {
            let i = choose|i: int| 0 <= i < calls.len() && #[trigger] calls[i] is Stop;
            if i < earlier.len() {
                assert(earlier[i] is Stop);
            }
        }
    }
}

/// Whatever is asked for after a stop, no process is started.
pub proof fn lemma_every_start_after_a_stop_is_refused(
    states: Seq<ManagerState>,
    calls: Seq<Call>,
    stop: int,
    start: int,
)
    requires
        is_history(states, calls),
        0 <= stop < start < calls.len(),
        calls[stop] is Stop,
    ensures
        calls[start] matches Call::StartProcess { launch, .. } ==> launch is Err && launch->Err_0
            == Error::Stopped && states[start + 1] == states[start],
{
    let reached = states.take(start + 1);
    let made = calls.take(start);
    assert forall|i: int| 0 <= i < made.len() implies called(
        reached[i],
        #[trigger] made[i],
        reached[i + 1],
    ) by {
        assert(made[i] == calls[i]);
    }
    assert(made[stop] is Stop);
    lemma_stopped_means_that_it_was_stopped(reached, made);
    assert(called(states[start], calls[start], states[start + 1]));
}

/// The executable of the process that was started under the key with the given number.
pub open spec fn started_as(calls: Seq<Call>, id: u64) -> Option<Seq<char>>
    decreases calls.len(),
{
    if calls.len() == 0 {
        None
    } else {
        match calls.last() {
            Call::StartProcess { process, launch: Ok(launch), .. } => if launch.key@ == id {
                Some(process.executable)
            } else {
                started_as(calls.drop_last(), id)
            },
            _ => started_as(calls.drop_last(), id),
        }
    }
}

/// The process id of a child that `call` says was spawned for the process with the given key
/// number, if it says so.
pub open spec fn spawned_by(call: Call, id: u64) -> Option<Option<u32>> {
    match call {
        Call::ProcessStarted { id: of, outcome: SpawnOutcome::Spawned { pid } } => if of == id {
            Some(pid)
        } else {
            None
        },
        Call::ChildSpawned { id: of, pid } => if of == id {
            Some(pid)
        } else {
            None
        },
        Call::ChildRespawned { id: of, pid, .. } => if of == id {
            Some(pid)
        } else {
            None
        },
        Call::Advance { supervisor, event: Event::Spawned { pid, .. }, .. } => if supervisor.key@
            == id {
            Some(pid)
        } else {
            None
        },
        _ => None,
    }
}

/// The process id of the child that was last spawned for the process with the given key number.
pub open spec fn latest_pid(calls: Seq<Call>, id: u64) -> Option<u32>
    decreases calls.len(),
{
    if calls.len() == 0 {
        None
    } else {
        match spawned_by(calls.last(), id) {
            Some(pid) => pid,
            None => latest_pid(calls.drop_last(), id),
        }
    }
}

/// Whether `call` starts a process under the key with the given number.
pub open spec fn starts(call: Call, id: u64) -> bool {
    call matches Call::StartProcess { launch: Ok(launch), .. } && launch.key@ == id
}

/// A call leaves the executable of a process alone, and its process id too, unless it says that
/// a child was spawned.
proof fn lemma_one_call(before: ManagerState, call: Call, after: ManagerState, id: u64)
    requires
        called(before, call, after),
    ensures
        before.manages(id) ==> after.manages(id) && !starts(call, id)
            && after.processes[id].process.executable == before.processes[id].process.executable
            && after.processes[id].pid == (match spawned_by(call, id) {
            Some(pid) => pid,
            None => before.processes[id].pid,
        }),
        !before.manages(id) ==> spawned_by(call, id) is None && (after.manages(id) <==> starts(
            call,
            id,
        )),
        starts(call, id) ==> id != NULL_KEY_ID && after.processes[id].pid is None
            && after.processes[id].process.executable == call->process.executable,
{
    match call {
        Call::Advance { supervisor, event, delay } => {
            lemma_one_turn(before, supervisor, event, delay, id);
        },
        Call::StartProcess { .. } => {},
        Call::ProcessStarted { .. } => {},
        _ => {},
    }
}

/// A turn of a supervisor leaves the executable of a process alone, and its process id too,
/// unless a child was spawned.
proof fn lemma_one_turn(
    before: ManagerState,
    supervisor: Supervisor,
    event: Event,
    delay: Option<Duration>,
    id: u64,
)
    requires
        supervisor.well_formed(before),
        supervisor.accepts(event),
    ensures
        ({
            let after = next(before, supervisor, event, delay).manager;
            let spawned = event is Spawned && supervisor.key@ == id;
            &&& after.manages(id) == before.manages(id)
            &&& spawned ==> before.manages(id) && after.processes[id].pid == event->Spawned_pid
            &&& !spawned && before.manages(id) ==> after.processes[id].pid
                == before.processes[id].pid
            &&& before.manages(id) ==> after.processes[id].process.executable
                == before.processes[id].process.executable
        }),
{
}

/// What is managed under a key is the process that was started under it, with the executable it
/// was started with, and its process id is that of the child that was last spawned for it, also
/// after that child has exited.
pub proof fn lemma_processes_are_what_was_started(
    states: Seq<ManagerState>,
    calls: Seq<Call>,
    id: u64,
)
    requires
        is_history(states, calls),
    ensures
        states.last().manages(id) <==> started_as(calls, id) is Some,
        states.last().manages(id) ==> states.last().processes[id].process.executable
            == started_as(calls, id)->0,
        states.last().manages(id) ==> states.last().processes[id].pid == latest_pid(calls, id),
        !states.last().manages(id) ==> latest_pid(calls, id) is None,
    decreases calls.len(),
{
    if calls.len() > 0 {
        lemma_history_before(states, calls);
        lemma_processes_are_what_was_started(states.drop_last(), calls.drop_last(), id);
        lemma_one_call(states.drop_last().last(), calls.last(), states.last(), id);
    }
}

/// No manager manages anything under the default key.
pub proof fn lemma_the_default_key_is_never_managed(states: Seq<ManagerState>, calls: Seq<Call>)
    requires
        is_history(states, calls),
    ensures
        !states.last().manages(NULL_KEY_ID),
    decreases calls.len(),
{
    if calls.len() > 0 {
        lemma_history_before(states, calls);
        lemma_the_default_key_is_never_managed(states.drop_last(), calls.drop_last());
        lemma_one_call(states.drop_last().last(), calls.last(), states.last(), NULL_KEY_ID);
    }
}

/// When `call` says that the process with the given key number was started or a child was spawned
/// in place of another one, if it says so.
pub open spec fn begun_by(call: Call, id: u64) -> Option<Duration> {
    match call {
        Call::StartProcess { now, launch: Ok(launch), .. } => if launch.key@ == id {
            Some(now)
        } else {
            None
        },
        Call::ChildRespawned { id: of, now, .. } => if of == id {
            Some(now)
        } else {
            None
        },
        Call::Advance { supervisor, event: Event::Spawned { now, .. }, .. } => if supervisor.key@
            == id {
            Some(now)
        } else {
            None
        },
        _ => None,
    }
}

/// When the current child of the process with the given key number was spawned.
pub open spec fn latest_start(calls: Seq<Call>, id: u64) -> Option<Duration>
    decreases calls.len(),
{
    if calls.len() == 0 {
        None
    } else {
        match begun_by(calls.last(), id) {
            Some(now) => Some(now),
            None => latest_start(calls.drop_last(), id),
        }
    }
}

/// When `call` says that the child of the process with the given key number exited, if it says so.
pub open spec fn exited_by(call: Call, id: u64) -> Option<Duration> {
    match call {
        Call::ChildExited { id: of, now } => if of == id {
            Some(now)
        } else {
            None
        },
        Call::Advance { supervisor, event: Event::Exited { now, .. }, .. } => if supervisor.key@
            == id {
            Some(now)
        } else {
            None
        },
        _ => None,
    }
}

/// Whether `call` may attempt a restart of the process with the given key number.
pub open spec fn attempts_by(call: Call, id: u64) -> bool {
    match call {
        Call::RestartProcess { id: of } => of == id,
        Call::Advance { supervisor, event, .. } => supervisor.key@ == id && event is DelayElapsed,
        _ => false,
    }
}

/// Whether the process with the given key number was stopped by itself.
pub open spec fn was_stopped(calls: Seq<Call>, id: u64) -> bool
    decreases calls.len(),
{
    calls.len() > 0 && (was_stopped(calls.drop_last(), id) || (started_as(
        calls.drop_last(),
        id,
    ) is Some && calls.last() == Call::StopProcess { id }))
}

/// A call begins a child, ends one, attempts a restart or stops a process only by saying so.
proof fn lemma_one_call_in_time(before: ManagerState, call: Call, after: ManagerState, id: u64)
    requires
        called(before, call, after),
        before.manages(id),
    ensures
        after.processes[id].started_at == (match begun_by(call, id) {
            Some(now) => now,
            None => before.processes[id].started_at,
        }),
        exited_by(call, id) matches Some(now) ==> after.processes[id].restarts == (if now@
            >= before.processes[id].started_at@ + 60_000_000_000 {
            0
        } else {
            before.processes[id].restarts
        }),
        attempts_by(call, id) && before.processes[id].restarts < usize::MAX ==> {
            ||| after.processes[id].restarts == before.processes[id].restarts + 1
            ||| call is Advance && after.processes[id].restarts == before.processes[id].restarts
        },
        exited_by(call, id) is None && !attempts_by(call, id) ==> after.processes[id].restarts
            == before.processes[id].restarts,
        after.processes[id].cancelled <==> before.processes[id].cancelled || call == (
        Call::StopProcess { id }),
{
    match call {
        Call::Advance { supervisor, event, delay } => {
            lemma_one_turn_in_time(before, supervisor, event, delay, id);
        },
        _ => {},
    }
}

/// A turn of a supervisor begins a child, ends one or attempts a restart only at its events.
proof fn lemma_one_turn_in_time(
    before: ManagerState,
    supervisor: Supervisor,
    event: Event,
    delay: Option<Duration>,
    id: u64,
)
    requires
        supervisor.well_formed(before),
        supervisor.accepts(event),
        before.manages(id),
    ensures
        ({
            let after = next(before, supervisor, event, delay).manager.processes[id];
            let same = supervisor.key@ == id;
            let entry = before.processes[id];
            &&& after.cancelled == entry.cancelled
            &&& after.started_at == (match event {
                Event::Spawned { now, .. } if same => now,
                _ => entry.started_at,
            })
            &&& match event {
                Event::Exited { now, .. } if same => after.restarts == (if now@
                    >= entry.started_at@ + 60_000_000_000 {
                    0
                } else {
                    entry.restarts
                }),
                Event::DelayElapsed if same => entry.restarts < usize::MAX ==> after.restarts
                    == entry.restarts || after.restarts == entry.restarts + 1,
                _ => after.restarts == entry.restarts,
            }
        }),
{
}

/// When the current child of a process was spawned is known from what was called, and so is
/// whether the process was stopped.
pub proof fn lemma_starts_and_stops_are_what_was_called(
    states: Seq<ManagerState>,
    calls: Seq<Call>,
    id: u64,
)
    requires
        is_history(states, calls),
    ensures
        states.last().manages(id) ==> latest_start(calls, id)
            == Some(states.last().processes[id].started_at),
        states.last().manages(id) ==> (states.last().processes[id].cancelled <==> was_stopped(
            calls,
            id,
        )),
        !states.last().manages(id) ==> !was_stopped(calls, id),
    decreases calls.len(),
{
    if calls.len() > 0 {
        lemma_history_before(states, calls);
        let before = states.drop_last();
        let earlier = calls.drop_last();
        lemma_starts_and_stops_are_what_was_called(before, earlier, id);
        lemma_processes_are_what_was_started(before, earlier, id);
        lemma_one_call(before.last(), calls.last(), states.last(), id);
        if before.last().manages(id) {
            lemma_one_call_in_time(before.last(), calls.last(), states.last(), id);
        } else if starts(calls.last(), id) {
            lemma_what_a_start_does(
                before.last(),
                calls.last()->process,
                calls.last()->StartProcess_now,
                calls.last()->launch,
                states.last(),
                id,
            );
        }
    }
}

/// A history up to some call is one.
proof fn lemma_history_up_to(states: Seq<ManagerState>, calls: Seq<Call>, i: int)
    requires
        is_history(states, calls),
        0 <= i <= calls.len(),
    ensures
        is_history(states.take(i + 1), calls.take(i)),
        states.take(i + 1).last() == states[i],
{
    assert forall|j: int| 0 <= j < i implies called(
        states.take(i + 1)[j],
        #[trigger] calls.take(i)[j],
        states.take(i + 1)[j + 1],
    ) by {
        assert(calls.take(i)[j] == calls[j]);
    }
}

/// Over any sequence of calls, a process has its restarts forgiven at the exit of a child that was
/// up for a minute, as measured from when that very child was spawned, and at no other time. Until
/// then they are only ever counted up, one by one.
pub proof fn lemma_restarts_are_forgiven_by_uptime(
    states: Seq<ManagerState>,
    calls: Seq<Call>,
    i: int,
    id: u64,
)
    requires
        is_history(states, calls),
        0 <= i < calls.len(),
        states[i].manages(id),
        states[i].processes[id].restarts < usize::MAX,
    ensures
        latest_start(calls.take(i), id) is Some,
        ({
            let start = latest_start(calls.take(i), id)->0;
            let before = states[i].processes[id].restarts;
            let after = states[i + 1].processes[id].restarts;
            match exited_by(calls[i], id) {
                Some(now) => {
                    &&& now@ >= start@ + 60_000_000_000 ==> after == 0
                    &&& now@ < start@ + 60_000_000_000 ==> after == before
                },
                None => after == before || (attempts_by(calls[i], id) && after == before + 1),
            }
        }),
{
    lemma_history_up_to(states, calls, i);
    lemma_starts_and_stops_are_what_was_called(states.take(i + 1), calls.take(i), id);
    lemma_one_call_in_time(states[i], calls[i], states[i + 1], id);
}

/// How the process with the given key number is configured by what was called: as it was started,
/// with its arguments and its environment variables as they were last changed.
pub open spec fn configured(calls: Seq<Call>, id: u64) -> Option<ProcessView>
    decreases calls.len(),
{
    if calls.len() == 0 {
        None
    } else {
        let before = configured(calls.drop_last(), id);
        match calls.last() {
            Call::StartProcess { process, launch: Ok(launch), .. } => if launch.key@ == id {
                Some(process)
            } else {
                before
            },
            Call::UpdateProcessArgs { id: of, args } => if of == id && before is Some {
                Some(ProcessView { args, ..before->0 })
            } else {
                before
            },
            Call::UpdateProcessEnv { id: of, update } => if of == id && before is Some {
                Some(ProcessView { env: updated_env(before->0.env, update), ..before->0 })
            } else {
                before
            },
            Call::ClearProcessEnv { id: of } => if of == id && before is Some {
                Some(ProcessView { env: Seq::empty(), ..before->0 })
            } else {
                before
            },
            _ => before,
        }
    }
}

/// Whether `process` is configured like `other`, but for its callbacks and its receiver.
pub open spec fn is_configured_like(process: ProcessView, other: ProcessView) -> bool {
    &&& process.executable == other.executable
    &&& process.args == other.args
    &&& process.env == other.env
    &&& process.stdin_tx == other.stdin_tx
    &&& process.cancel_timeout == other.cancel_timeout
}

/// A turn of a supervisor leaves alone how a process is configured.
proof fn lemma_one_turn_keeps_the_configuration(
    before: ManagerState,
    supervisor: Supervisor,
    event: Event,
    delay: Option<Duration>,
    id: u64,
)
    requires
        supervisor.well_formed(before),
        supervisor.accepts(event),
        before.manages(id),
    ensures
        ({
            let after = next(before, supervisor, event, delay).manager;
            &&& is_configured_like(after.processes[id].process, before.processes[id].process)
            &&& after.processes[id].cancel_timeout == before.processes[id].cancel_timeout
        }),
{
}

/// What the next child of a process would be made from, and how it would be stopped, is what was
/// asked for when the process was started and changed since.
pub proof fn lemma_processes_are_configured_as_asked(
    states: Seq<ManagerState>,
    calls: Seq<Call>,
    id: u64,
)
    requires
        is_history(states, calls),
    ensures
        states.last().manages(id) <==> configured(calls, id) is Some,
        states.last().manages(id) ==> is_configured_like(
            states.last().processes[id].process,
            configured(calls, id)->0,
        ) && states.last().processes[id].cancel_timeout == configured(calls, id)->0.cancel_timeout,
    decreases calls.len(),
{
    if calls.len() > 0 {
        lemma_history_before(states, calls);
        let before = states.drop_last();
        lemma_processes_are_configured_as_asked(before, calls.drop_last(), id);
        lemma_one_call(before.last(), calls.last(), states.last(), id);
        match calls.last() {
            Call::Advance { supervisor, event, delay } => {
                if before.last().manages(id) {
                    lemma_one_turn_keeps_the_configuration(
                        before.last(),
                        supervisor,
                        event,
                        delay,
                        id,
                    );
                }
            },
            _ => {},
        }
    }
}

} // verus!
