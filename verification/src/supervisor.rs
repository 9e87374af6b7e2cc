//! Supervision of one process, from its first child to the end of its last one.
//!
//! A [`Supervisor`] is a state machine. The embedding program tells it what happened, an
//! [`Event`], and is told what to do about it, an [`Action`]. What came of the action is the
//! next event. While the child is running, any of several events may come first.

use crate::error::Error;
use crate::history::{called, Call};
use crate::liveness::{stuck_threads, stuck_zombie_leader};
use crate::manager::{ManagerState, ProcessManager};
use crate::process::{Command, CommandView, Handle, ProcessCallbacks};
use crate::table::ProcessKey;
use crate::time::Duration;
use crate::util::{signal_target, signalled};
use vstd::prelude::*;

verus! {

/// The exit code of a process that had to be killed.
pub const KILLED_EXIT_CODE: i32 = 137;

/// How a child exited.
#[derive(Clone, Copy, Debug, PartialEq, Eq)]
pub struct ExitStatus {
    /// Whether it exited as it should.
    pub success: bool,
    /// Its exit code, if it has one.
    pub code: Option<i32>,
}

/// What a supervisor is waiting for.
#[derive(Clone, Copy, Debug, PartialEq, Eq)]
pub enum Phase {
    /// Whatever happens first.
    Running,
    /// The status of the child, which may be dead without having been reported.
    CheckingLeader { pid: u32 },
    /// The child's exit, which it has been asked for.
    Terminating,
    /// The child's death.
    Killing,
    /// The end of what an exited child has left in its streams.
    Draining { code: Option<i32>, restarting: bool },
    /// The return of the callback that was told of an exit.
    ReportingExit { code: Option<i32>, restarting: bool },
    /// The end of the delay before a restart.
    Delaying { code: Option<i32> },
    /// The outcome of an attempt to spawn a child.
    Spawning { code: Option<i32> },
    /// Nothing any more.
    Finished,
}

/// Supervises one process.
#[derive(Clone, Copy, Debug)]
pub struct Supervisor {
    /// The process.
    pub key: ProcessKey,
    /// The callbacks of the process.
    pub callbacks: ProcessCallbacks,
    /// The child that was last found dead without having been reported. It is killed only once:
    /// if a kill somehow leaves it in place, this must not become a kill loop.
    pub tripped_for: Option<u32>,
    /// What is being waited for.
    pub phase: Phase,
}

/// What came of the attempt to spawn the first child of a process.
#[derive(Clone, Copy, Debug, PartialEq, Eq)]
pub enum SpawnOutcome {
    /// It was spawned.
    Spawned { pid: Option<u32> },
    /// It was not.
    Failed,
}

/// A process whose first child has been spawned.
#[derive(Clone, Copy, Debug)]
pub struct Started {
    /// Supervises the process.
    pub supervisor: Supervisor,
    /// The callback to queue, to say that the process was started and not restarted.
    pub on_start: Option<Handle>,
    /// How often to check on the child, until told otherwise.
    pub liveness_interval: Option<Duration>,
}

/// Something that happened.
#[derive(Debug)]
pub enum Event {
    /// It is time to check on the child with the id `pid`.
    LivenessTick { pid: Option<u32> },
    /// How often to check on supervised processes has been set anew.
    LivenessChanged,
    /// The text of the child's `/proc/<pid>/status` was read, if there is one.
    LeaderStatus { text: Option<String> },
    /// The process was stopped, while the id of its child was `pid`.
    Cancelled { pid: Option<u32> },
    /// The child exited with a code, or its exit code is not to be had: it exited without one,
    /// or not in time, or waiting for it failed.
    Terminated { code: Option<i32> },
    /// The child was killed.
    Killed,
    /// There is a message for the child's stdin.
    StdinMessage { message: Vec<u8> },
    /// The child wrote a line to stdout.
    StdoutLine { line: String },
    /// The child wrote a line to stderr.
    StderrLine { line: String },
    /// The child exited, at `now`. There is no status if waiting for it failed.
    Exited { status: Option<ExitStatus>, now: Duration },
    /// Everything that the child had written when it exited has been read.
    Drained,
    /// The callback that was told of an exit has returned.
    ExitReported,
    /// The delay before a restart is over, or has been cut short because the process was stopped.
    DelayElapsed,
    /// A child was spawned, at `now`.
    Spawned { pid: Option<u32>, now: Duration },
    /// No child could be spawned.
    SpawnFailed,
}

/// Something to do.
#[derive(Debug)]
pub enum Action {
    /// Wait for what happens first: for any of the events that are being waited for.
    Select,
    /// From now on check on the child once per `period`, or never, then wait for what happens
    /// first.
    SetInterval { period: Option<Duration> },
    /// Read the status of the child.
    ReadStatus { pid: u32 },
    /// Kill the `survivors` of a dead thread-group leader, then wait for what happens first.
    KillSurvivors { target: Option<i32>, survivors: u64 },
    /// Ask the child to exit, then wait for it, but no longer than `timeout`.
    Terminate { target: Option<i32>, timeout: Option<Duration> },
    /// Kill the child.
    Kill,
    /// Write a message to the child's stdin, then wait for what happens first.
    WriteStdin { message: Vec<u8> },
    /// Queue the callback for a line on stdout, then wait for what happens first.
    QueueStdout { callback: Handle, line: String },
    /// Queue the callback for a line on stderr, then wait for what happens first.
    QueueStderr { callback: Handle, line: String },
    /// Queue the callback for a restart, then wait for what happens first.
    QueueRestarted { callback: Handle },
    /// Read what the exited child has left in its streams, line by line. Nothing more is waited
    /// for: somebody else may keep the streams open.
    Drain,
    /// Tell of an exit, and wait until the callback has returned.
    ReportExit { on_exit: Option<Handle>, code: Option<i32>, restarting: bool },
    /// Drop the messages for stdin that are waiting, if `drain_stdin`, then wait for `delay`.
    Delay { drain_stdin: bool, delay: Option<Duration> },
    /// Spawn a child.
    Spawn { command: Command, fds: Option<Handle> },
    /// End the supervision.
    Finish,
}

/// The model of an [`Action`].
pub enum ActionView {
    Select,
    SetInterval { period: Option<Duration> },
    ReadStatus { pid: u32 },
    KillSurvivors { target: Option<i32>, survivors: u64 },
    Terminate { target: Option<i32>, timeout: Option<Duration> },
    Kill,
    WriteStdin { message: Seq<u8> },
    QueueStdout { callback: Handle, line: Seq<char> },
    QueueStderr { callback: Handle, line: Seq<char> },
    QueueRestarted { callback: Handle },
    Drain,
    ReportExit { on_exit: Option<Handle>, code: Option<i32>, restarting: bool },
    Delay { drain_stdin: bool, delay: Option<Duration> },
    Spawn { command: CommandView, fds: Option<Handle> },
    Finish,
}

impl View for Action {
    type V = ActionView;

    open spec fn view(&self) -> ActionView {
        match *self {
            Action::Select => ActionView::Select,
            Action::SetInterval { period } => ActionView::SetInterval { period },
            Action::ReadStatus { pid } => ActionView::ReadStatus { pid },
            Action::KillSurvivors { target, survivors } => ActionView::KillSurvivors {
                target,
                survivors,
            },
            Action::Terminate { target, timeout } => ActionView::Terminate { target, timeout },
            Action::Kill => ActionView::Kill,
            Action::WriteStdin { message } => ActionView::WriteStdin { message: message@ },
            Action::QueueStdout { callback, line } => ActionView::QueueStdout {
                callback,
                line: line@,
            },
            Action::QueueStderr { callback, line } => ActionView::QueueStderr {
                callback,
                line: line@,
            },
            Action::QueueRestarted { callback } => ActionView::QueueRestarted { callback },
            Action::Drain => ActionView::Drain,
            Action::ReportExit { on_exit, code, restarting } => ActionView::ReportExit {
                on_exit,
                code,
                restarting,
            },
            Action::Delay { drain_stdin, delay } => ActionView::Delay { drain_stdin, delay },
            Action::Spawn { command, fds } => ActionView::Spawn { command: command@, fds },
            Action::Finish => ActionView::Finish,
        }
    }
}

/// Whether `pid` can be the id of a child.
pub open spec fn is_pid(pid: Option<u32>) -> bool {
    pid is Some ==> pid->0 <= i32::MAX
}

impl Supervisor {
    /// Whether `event` is one that the supervisor is waiting for.
    pub open spec fn accepts(self, event: Event) -> bool {
        match event {
            Event::LivenessTick { pid } => self.phase is Running && is_pid(pid),
            Event::LivenessChanged => self.phase is Running,
            Event::LeaderStatus { .. } => self.phase is CheckingLeader,
            Event::Cancelled { pid } => self.phase is Running && is_pid(pid),
            Event::Terminated { .. } => self.phase is Terminating,
            Event::Killed => self.phase is Killing,
            Event::StdinMessage { .. } => self.phase is Running,
            Event::StdoutLine { .. } => self.phase is Running || self.phase is Draining,
            Event::StderrLine { .. } => self.phase is Running || self.phase is Draining,
            Event::Exited { .. } => self.phase is Running,
            Event::Drained => self.phase is Draining,
            Event::ExitReported => self.phase is ReportingExit,
            Event::DelayElapsed => self.phase is Delaying,
            Event::Spawned { .. } => self.phase is Spawning,
            Event::SpawnFailed => self.phase is Spawning,
        }
    }

    /// Whether the supervisor is to restart the process and has not attempted it yet.
    pub open spec fn owes_restart(self) -> bool {
        match self.phase {
            Phase::Draining { restarting, .. } => restarting,
            Phase::ReportingExit { restarting, .. } => restarting,
            Phase::Delaying { .. } => true,
            _ => false,
        }
    }

    /// What holds of a supervisor and its manager between any two events.
    pub open spec fn well_formed(self, manager: ManagerState) -> bool {
        &&& self.phase is CheckingLeader ==> {
            &&& self.phase->CheckingLeader_pid <= i32::MAX
            &&& self.tripped_for != Some(self.phase->CheckingLeader_pid)
        }
        &&& self.phase is Spawning ==> manager.manages(self.key@)
        &&& self.owes_restart() && manager.manages(self.key@)
            ==> manager.processes[self.key@].restarts < usize::MAX
    }

    /// The supervisor, waiting for what `phase` says.
    pub open spec fn waiting(self, phase: Phase) -> Supervisor {
        Supervisor { phase, ..self }
    }
}

/// The state of a manager and of a supervisor after an event, and what is to be done.
pub struct Step {
    pub manager: ManagerState,
    pub supervisor: Supervisor,
    pub action: ActionView,
}

/// Does `action` and waits for what happens first.
pub open spec fn carry_on(manager: ManagerState, supervisor: Supervisor, action: ActionView) -> Step {
    Step { manager, supervisor: supervisor.waiting(Phase::Running), action }
}

/// Tells of an exit.
pub open spec fn report_exit(
    manager: ManagerState,
    supervisor: Supervisor,
    code: Option<i32>,
    restarting: bool,
) -> Step {
    Step {
        manager,
        supervisor: supervisor.waiting(Phase::ReportingExit { code, restarting }),
        action: ActionView::ReportExit {
            on_exit: supervisor.callbacks.on_exit,
            code,
            restarting,
        },
    }
}

/// Kills the child.
pub open spec fn kill(manager: ManagerState, supervisor: Supervisor) -> Step {
    Step { manager, supervisor: supervisor.waiting(Phase::Killing), action: ActionView::Kill }
}

/// Ends the supervision.
pub open spec fn finish(manager: ManagerState, supervisor: Supervisor) -> Step {
    Step { manager, supervisor: supervisor.waiting(Phase::Finished), action: ActionView::Finish }
}

/// Waits for `delay` before the next attempt to restart the process.
pub open spec fn delay_restart(
    manager: ManagerState,
    supervisor: Supervisor,
    code: Option<i32>,
    drain_stdin: bool,
    delay: Option<Duration>,
) -> Step {
    Step {
        manager,
        supervisor: supervisor.waiting(Phase::Delaying { code }),
        action: ActionView::Delay { drain_stdin, delay },
    }
}

/// Whether the child of `status` exited as it should.
pub open spec fn succeeded(status: Option<ExitStatus>) -> bool {
    status is Some && status->0.success
}

/// The exit code of the child of `status`, if it is known to have one.
pub open spec fn exit_code(status: Option<ExitStatus>) -> Option<i32> {
    match status {
        Some(status) => status.code,
        None => None,
    }
}

/// What a supervisor makes of an event. If it waits before a restart, it waits for `delay`.
///
/// A process that has been stopped is not restarted: an announced restart is taken back.
pub open spec fn next(
    manager: ManagerState,
    supervisor: Supervisor,
    event: Event,
    delay: Option<Duration>,
) -> Step {
    let id = supervisor.key@;
    let callbacks = supervisor.callbacks;
    match event {
        // Only a child that has not been found dead before is looked at, and none while the check
        // is disabled.
        Event::LivenessTick { pid } => if manager.liveness_interval is Some && pid is Some
            && supervisor.tripped_for != pid {
            Step {
                manager,
                supervisor: supervisor.waiting(Phase::CheckingLeader { pid: pid->0 }),
                action: ActionView::ReadStatus { pid: pid->0 },
            }
        } else {
            carry_on(manager, supervisor, ActionView::Select)
        },
        Event::LivenessChanged => carry_on(
            manager,
            supervisor,
            ActionView::SetInterval { period: manager.liveness_interval },
        ),
        // Killing the survivors lets the pending wait complete, so the exit is reported through
        // the normal path.
        Event::LeaderStatus { text } => {
            let pid = supervisor.phase->CheckingLeader_pid;
            let threads = match text {
                Some(text) => stuck_threads(text@),
                None => None,
            };
            if threads is Some && manager.liveness_interval is Some {
                carry_on(
                    manager,
                    Supervisor { tripped_for: Some(pid), ..supervisor },
                    ActionView::KillSurvivors {
                        target: signalled(pid),
                        survivors: (threads->0 - 1) as u64,
                    },
                )
            } else {
                carry_on(manager, supervisor, ActionView::Select)
            }
        },
        // A child without an id cannot be asked to exit.
        Event::Cancelled { pid } => if pid is Some {
            Step {
                manager,
                supervisor: supervisor.waiting(Phase::Terminating),
                action: ActionView::Terminate {
                    target: signalled(pid->0),
                    timeout: manager.cancel_timeout(id),
                },
            }
        } else {
            kill(manager, supervisor)
        },
        Event::Terminated { code } => if code is Some {
            report_exit(manager, supervisor, code, false)
        } else {
            kill(manager, supervisor)
        },
        Event::Killed => report_exit(manager, supervisor, Some(KILLED_EXIT_CODE), false),
        Event::StdinMessage { message } => carry_on(
            manager,
            supervisor,
            ActionView::WriteStdin { message: message@ },
        ),
        Event::StdoutLine { line } => Step {
            manager,
            supervisor,
            action: match callbacks.on_stdout {
                Some(callback) => ActionView::QueueStdout { callback, line: line@ },
                None => ActionView::Select,
            },
        },
        Event::StderrLine { line } => Step {
            manager,
            supervisor,
            action: match callbacks.on_stderr {
                Some(callback) => ActionView::QueueStderr { callback, line: line@ },
                None => ActionView::Select,
            },
        },
        // What the child wrote is read before its exit is reported.
        Event::Exited { status, now } => if manager.manages(id) {
            Step {
                manager: manager.after_exit(id, now),
                supervisor: supervisor.waiting(
                    Phase::Draining {
                        code: exit_code(status),
                        restarting: manager.restarts_after_exit(id, succeeded(status), now),
                    },
                ),
                action: ActionView::Drain,
            }
        } else {
            finish(manager, supervisor)
        },
        Event::Drained => report_exit(
            manager,
            supervisor,
            supervisor.phase->Draining_code,
            supervisor.phase->Draining_restarting && !manager.is_cancelled(id),
        ),
        Event::ExitReported => {
            let code = supervisor.phase->ReportingExit_code;
            if !supervisor.phase->ReportingExit_restarting {
                finish(manager, supervisor)
            } else if manager.manages(id) && !manager.is_cancelled(id) {
                delay_restart(manager, supervisor, code, true, delay)
            } else {
                report_exit(manager, supervisor, code, false)
            }
        },
        // The attempt is counted before it can fail.
        Event::DelayElapsed => {
            let code = supervisor.phase->Delaying_code;
            if manager.manages(id) && !manager.is_cancelled(id) {
                Step {
                    manager: manager.after_attempt(id),
                    supervisor: supervisor.waiting(Phase::Spawning { code }),
                    action: ActionView::Spawn {
                        command: manager.processes[id].process.command(),
                        fds: manager.processes[id].process.callbacks.fds,
                    },
                }
            } else {
                report_exit(manager, supervisor, code, false)
            }
        },
        Event::Spawned { pid, now } => carry_on(
            manager.after_restart(id, pid, now),
            supervisor,
            match callbacks.on_start {
                Some(callback) => ActionView::QueueRestarted { callback },
                None => ActionView::Select,
            },
        ),
        // A restart was announced. If there will be none, the announcement is corrected.
        Event::SpawnFailed => {
            let code = supervisor.phase->Spawning_code;
            if manager.exhausted(id) || manager.is_cancelled(id) {
                report_exit(manager, supervisor, code, false)
            } else {
                delay_restart(manager, supervisor, code, false, delay)
            }
        },
    }
}

impl Supervisor {
    /// Returns whether `event` is one that the supervisor is waiting for.
    pub fn is_waiting_for(&self, event: &Event) -> (yes: bool)
        ensures
            yes == self.accepts(*event),
    {
        match event {
            Event::LivenessTick { pid } => matches!(self.phase, Phase::Running) && pid_is_valid(
                pid,
            ),
            Event::LivenessChanged => matches!(self.phase, Phase::Running),
            Event::LeaderStatus { .. } => matches!(self.phase, Phase::CheckingLeader { .. }),
            Event::Cancelled { pid } => matches!(self.phase, Phase::Running) && pid_is_valid(pid),
            Event::Terminated { .. } => matches!(self.phase, Phase::Terminating),
            Event::Killed => matches!(self.phase, Phase::Killing),
            Event::StdinMessage { .. } => matches!(self.phase, Phase::Running),
            Event::StdoutLine { .. } => matches!(
                self.phase,
                Phase::Running | Phase::Draining { .. }
            ),
            Event::StderrLine { .. } => matches!(
                self.phase,
                Phase::Running | Phase::Draining { .. }
            ),
            Event::Exited { .. } => matches!(self.phase, Phase::Running),
            Event::Drained => matches!(self.phase, Phase::Draining { .. }),
            Event::ExitReported => matches!(self.phase, Phase::ReportingExit { .. }),
            Event::DelayElapsed => matches!(self.phase, Phase::Delaying { .. }),
            Event::Spawned { .. } => matches!(self.phase, Phase::Spawning { .. }),
            Event::SpawnFailed => matches!(self.phase, Phase::Spawning { .. }),
        }
    }

    /// Waits for what happens first, after `action`.
    fn carry_on(&mut self, action: Action) -> (same: Action)
        ensures
            *final(self) == old(self).waiting(Phase::Running),
            same == action,
    {
        self.phase = Phase::Running;
        action
    }

    /// Tells of an exit.
    fn report_exit(&mut self, code: Option<i32>, restarting: bool) -> (action: Action)
        ensures
            *final(self) == old(self).waiting(Phase::ReportingExit { code, restarting }),
            action@ == (ActionView::ReportExit {
                on_exit: old(self).callbacks.on_exit,
                code,
                restarting,
            }),
    {
        self.phase = Phase::ReportingExit { code, restarting };
        Action::ReportExit { on_exit: self.callbacks.on_exit, code, restarting }
    }

    /// Kills the child.
    fn kill(&mut self) -> (action: Action)
        ensures
            *final(self) == old(self).waiting(Phase::Killing),
            action@ == ActionView::Kill,
    {
        self.phase = Phase::Killing;
        Action::Kill
    }

    /// Ends the supervision.
    fn finish(&mut self) -> (action: Action)
        ensures
            *final(self) == old(self).waiting(Phase::Finished),
            action@ == ActionView::Finish,
    {
        self.phase = Phase::Finished;
        Action::Finish
    }
}

/// Returns whether `pid` can be the id of a child.
fn pid_is_valid(pid: &Option<u32>) -> (yes: bool)
    ensures
        yes == is_pid(*pid),
{
    match pid {
        Some(pid) => *pid <= 0x7fff_ffff,
        None => true,
    }
}

impl ProcessManager {
    /// Returns whether what holds of a supervisor and its manager between any two events holds of
    /// `supervisor` and this manager.
    pub fn is_supervising(&self, supervisor: &Supervisor) -> (yes: bool)
        ensures
            yes == supervisor.well_formed(self@),
    {
        let restarts = self.restarts(supervisor.key);
        let can_restart = match restarts {
            Some(restarts) => restarts < usize::MAX,
            None => true,
        };
        match supervisor.phase {
            Phase::CheckingLeader { pid } => pid <= 0x7fff_ffff && match supervisor.tripped_for {
                Some(tripped) => tripped != pid,
                None => true,
            },
            Phase::Spawning { .. } => restarts.is_some(),
            Phase::Draining { restarting, .. } => !restarting || can_restart,
            Phase::ReportingExit { restarting, .. } => !restarting || can_restart,
            Phase::Delaying { .. } => can_restart,
            _ => true,
        }
    }

    /// Begins the supervision of a process whose first child was to be spawned.
    ///
    /// If it was not, the process stays managed without a child.
    pub fn process_started(
        &mut self,
        key: ProcessKey,
        callbacks: ProcessCallbacks,
        outcome: SpawnOutcome,
    ) -> (started: Result<Started, Error>)
        requires
            old(self)@.manages(key@),
        ensures
            final(self)@.follows(old(self)@),
            called(old(self)@, Call::ProcessStarted { id: key@, outcome }, final(self)@),
            match outcome {
                SpawnOutcome::Spawned { pid } => {
                    &&& final(self)@ == old(self)@.with_pid(key@, pid)
                    &&& started is Ok
                    &&& started->Ok_0.supervisor == (Supervisor {
                        key,
                        callbacks,
                        tripped_for: None,
                        phase: Phase::Running,
                    })
                    &&& started->Ok_0.supervisor.well_formed(final(self)@)
                    &&& started->Ok_0.on_start == callbacks.on_start
                    &&& started->Ok_0.liveness_interval == old(self)@.liveness_interval
                },
                SpawnOutcome::Failed => {
                    &&& final(self)@ == old(self)@
                    &&& started is Err
                    &&& started->Err_0 == Error::Process
                },
            },
    {
        match outcome {
            SpawnOutcome::Spawned { pid } => {
                self.child_spawned(key, pid);
                let supervisor = Supervisor {
                    key,
                    callbacks,
                    tripped_for: None,
                    phase: Phase::Running,
                };
                Ok(
                    Started {
                        supervisor,
                        on_start: callbacks.on_start,
                        liveness_interval: self.liveness_interval(),
                    },
                )
            },
            SpawnOutcome::Failed => Err(Error::Process),
        }
    }

    /// What is to be done about an event. If that is to wait before a restart, `delay` is how
    /// long.
    pub fn advance(
        &mut self,
        supervisor: &mut Supervisor,
        event: Event,
        delay: Option<Duration>,
    ) -> (action: Action)
        requires
            old(supervisor).well_formed(old(self)@),
            old(supervisor).accepts(event),
        ensures
            final(self)@.follows(old(self)@),
            called(old(self)@, Call::Advance { supervisor: *old(supervisor), event, delay }, final(self)@),
            final(supervisor).well_formed(final(self)@),
            (Step { manager: final(self)@, supervisor: *final(supervisor), action: action@ })
                == next(old(self)@, *old(supervisor), event, delay),
    {
        let key = supervisor.key;
        match event {
            Event::LivenessTick { pid } => {
                match pid {
                    Some(pid) => {
                        let tripped = match supervisor.tripped_for {
                            Some(tripped) => tripped == pid,
                            None => false,
                        };
                        if tripped || self.liveness_interval().is_none() {
                            supervisor.carry_on(Action::Select)
                        } else {
                            supervisor.phase = Phase::CheckingLeader { pid };
                            Action::ReadStatus { pid }
                        }
                    },
                    None => supervisor.carry_on(Action::Select),
                }
            },
            Event::LivenessChanged => supervisor.carry_on(
                Action::SetInterval { period: self.liveness_interval() },
            ),
            Event::LeaderStatus { text } => {
                let threads = match &text {
                    Some(text) => stuck_zombie_leader(Some(text.as_str())),
                    None => stuck_zombie_leader(None),
                };
                match (threads, supervisor.phase, self.liveness_interval()) {
                    (Some(threads), Phase::CheckingLeader { pid }, Some(_)) => {
                        supervisor.tripped_for = Some(pid);
                        let target = signal_target(pid);
                        supervisor.carry_on(
                            Action::KillSurvivors { target, survivors: threads - 1 },
                        )
                    },
                    _ => supervisor.carry_on(Action::Select),
                }
            },
            Event::Cancelled { pid } => {
                match pid {
                    Some(pid) => {
                        supervisor.phase = Phase::Terminating;
                        Action::Terminate {
                            target: signal_target(pid),
                            timeout: self.cancel_timeout(key),
                        }
                    },
                    None => supervisor.kill(),
                }
            },
            Event::Terminated { code } => {
                if code.is_some() {
                    supervisor.report_exit(code, false)
                } else {
                    supervisor.kill()
                }
            },
            Event::Killed => supervisor.report_exit(Some(KILLED_EXIT_CODE), false),
            Event::StdinMessage { message } => supervisor.carry_on(Action::WriteStdin { message }),
            Event::StdoutLine { line } => {
                match supervisor.callbacks.on_stdout {
                    Some(callback) => Action::QueueStdout { callback, line },
                    None => Action::Select,
                }
            },
            Event::StderrLine { line } => {
                match supervisor.callbacks.on_stderr {
                    Some(callback) => Action::QueueStderr { callback, line },
                    None => Action::Select,
                }
            },
            Event::Exited { status, now } => {
                let (success, code) = match status {
                    Some(status) => (status.success, status.code),
                    None => (false, None),
                };
                match self.child_exited(key, success, now) {
                    Some(restarting) => {
                        supervisor.phase = Phase::Draining { code, restarting };
                        Action::Drain
                    },
                    None => supervisor.finish(),
                }
            },
            Event::Drained => {
                let (code, restarting) = match supervisor.phase {
                    Phase::Draining { code, restarting } => (code, restarting),
                    _ => (None, false),
                };
                supervisor.report_exit(code, restarting && !self.is_cancelled(key))
            },
            Event::ExitReported => {
                match supervisor.phase {
                    Phase::ReportingExit { code, restarting: true } => {
                        if self.manages(key) && !self.is_cancelled(key) {
                            supervisor.phase = Phase::Delaying { code };
                            Action::Delay { drain_stdin: true, delay }
                        } else {
                            supervisor.report_exit(code, false)
                        }
                    },
                    _ => supervisor.finish(),
                }
            },
            Event::DelayElapsed => {
                let code = match supervisor.phase {
                    Phase::Delaying { code } => code,
                    _ => None,
                };
                if self.is_cancelled(key) {
                    supervisor.report_exit(code, false)
                } else {
                    match self.restart_process(key) {
                        Ok(respawn) => {
                            supervisor.phase = Phase::Spawning { code };
                            Action::Spawn { command: respawn.command, fds: respawn.fds }
                        },
                        Err(_) => supervisor.report_exit(code, false),
                    }
                }
            },
            Event::Spawned { pid, now } => {
                self.child_respawned(key, pid, now);
                match supervisor.callbacks.on_start {
                    Some(callback) => supervisor.carry_on(Action::QueueRestarted { callback }),
                    None => supervisor.carry_on(Action::Select),
                }
            },
            Event::SpawnFailed => {
                let code = match supervisor.phase {
                    Phase::Spawning { code } => code,
                    _ => None,
                };
                if self.restarts_exhausted(key) || self.is_cancelled(key) {
                    supervisor.report_exit(code, false)
                } else {
                    supervisor.phase = Phase::Delaying { code };
                    Action::Delay { drain_stdin: false, delay }
                }
            },
        }
    }

    /// What is to be done about an event.
    ///
    /// How long to wait before a restart is up to the restart mode, and with
    /// [`crate::manager::RestartMode::ExponentialBackoff`] to chance.
    pub fn supervise(&mut self, supervisor: &mut Supervisor, event: Event) -> (action: Action)
        requires
            old(supervisor).well_formed(old(self)@),
            old(supervisor).accepts(event),
        ensures
            final(self)@.follows(old(self)@),
            final(supervisor).well_formed(final(self)@),
            exists|delay: Option<Duration>|
                {
                    &&& action is Delay ==> old(self)@.allows_delay(old(supervisor).key@, delay)
                    &&& called(
                        old(self)@,
                        Call::Advance { supervisor: *old(supervisor), event, delay },
                        final(self)@,
                    )
                    &&& (Step {
                        manager: final(self)@,
                        supervisor: *final(supervisor),
                        action: action@,
                    }) == #[trigger] next(old(self)@, *old(supervisor), event, delay)
                },
    {
        let waits = !self.is_cancelled(supervisor.key) && match event {
            Event::ExitReported => matches!(
                supervisor.phase,
                Phase::ReportingExit { restarting: true, .. }
            ),
            Event::SpawnFailed => !self.restarts_exhausted(supervisor.key),
            _ => false,
        };
        let mut delay: Option<Duration> = None;
        if waits {
            match self.restart_delay(supervisor.key) {
                Ok(span) => {
                    delay = span;
                },
                Err(_) => {},
            }
        }
        self.advance(supervisor, event, delay)
    }
}

} // verus!
