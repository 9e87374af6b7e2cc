//! The process manager: its settings, and what it knows of each process.
//!
//! The manager never waits and never touches a child process. It decides what is to be done,
//! and the embedding program does it and reports back what came of it. Times are spans on a
//! clock that the embedding program keeps, and that never runs backwards.

use crate::backoff::{backoff_allows, is_drawn_backoff};
use crate::error::Error;
use crate::history::{called, Call};
use crate::process::{
    bindings, no_callbacks, texts, updated_env, Command, Handle, Process,
    ProcessCallbacks, ProcessView,
};
use crate::table::{
    contents, ProcessData, ProcessDataView, ProcessKey, ProcessTable, NULL_KEY_ID,
};
use crate::text::quoted;
use crate::time::Duration;
use vstd::prelude::*;

verus! {

/// How often a process is restarted before giving up, unless set otherwise.
pub const DEFAULT_MAX_RESTARTS: usize = 3;

/// Default ceiling for [`RestartMode::ExponentialBackoff`], in seconds.
///
/// Without a ceiling the delay doubles without bound: at 20 restarts it is already over an hour,
/// and past 30 it is measured in weeks, so a component that crashes repeatedly becomes
/// unrestartable in practice while the log still cheerfully reports that a restart is pending.
pub const DEFAULT_MAX_BACKOFF_SECS: u64 = 60;

/// Default interval for the liveness check described in [`crate::liveness`], in seconds.
///
/// One small procfs read per process per tick, so the cost is negligible.
pub const DEFAULT_LIVENESS_INTERVAL_SECS: u64 = 5;

/// How long a process must stay up before its restart counter is forgiven, in seconds.
///
/// Without this the counter only ever grows, so a process that crashes rarely but over a long
/// session still ends up pinned at the backoff ceiling and eventually exceeds `max_restarts`,
/// even though it was healthy in between.
pub const RESTART_DECAY_UPTIME_SECS: u64 = 60;

/// How long to wait before a process is restarted.
#[derive(Clone, Copy, Debug, PartialEq, Eq)]
pub enum RestartMode {
    /// Not at all.
    Instant,
    /// Always equally long.
    Delayed(Duration),
    /// Twice as long after each restart, up to a ceiling.
    ExponentialBackoff(Duration),
}

/// The model of a [`ProcessManager`]. Processes are found under the numbers of their keys.
#[verifier::ext_equal]
pub struct ManagerState {
    pub restart_mode: RestartMode,
    pub max_restarts: usize,
    pub max_backoff: Duration,
    pub liveness_interval: Option<Duration>,
    pub stopped: bool,
    pub processes: Map<u64, ProcessDataView>,
}

/// The state of a new manager: nothing is managed, and every setting has its default.
pub open spec fn is_initial(state: ManagerState) -> bool {
    &&& state.restart_mode == RestartMode::Instant
    &&& state.max_restarts == DEFAULT_MAX_RESTARTS
    &&& state.max_backoff@ == DEFAULT_MAX_BACKOFF_SECS as nat * 1_000_000_000
    &&& state.liveness_interval is Some
    &&& state.liveness_interval->0@ == DEFAULT_LIVENESS_INTERVAL_SECS as nat * 1_000_000_000
    &&& !state.stopped
    &&& state.processes == Map::<u64, ProcessDataView>::empty()
}

impl ManagerState {
    /// Whether the process with the given key number is managed.
    pub open spec fn manages(self, id: u64) -> bool {
        self.processes.contains_key(id)
    }

    /// Whether the request to start `process` is refused: the manager has been stopped, or the
    /// receiver for stdin messages is missing.
    pub open spec fn refuses(self, process: ProcessView) -> bool {
        self.stopped || process.stdin_rx is None
    }

    /// The state in which `entry` is what is known of the process with the given key number,
    /// and everything else is as it is.
    pub open spec fn with_entry(self, id: u64, entry: ProcessDataView) -> ManagerState {
        ManagerState { processes: self.processes.insert(id, entry), ..self }
    }

    /// The state in which `process` is what the next child of a process is made from.
    pub open spec fn with_process(self, id: u64, process: ProcessView) -> ManagerState {
        self.with_entry(id, ProcessDataView { process, ..self.processes[id] })
    }

    /// The state in which `pid` is the id of the child of a process.
    pub open spec fn with_pid(self, id: u64, pid: Option<u32>) -> ManagerState {
        self.with_entry(id, ProcessDataView { pid, ..self.processes[id] })
    }

    /// The state in which a process has been stopped.
    pub open spec fn with_cancelled(self, id: u64) -> ManagerState {
        self.with_entry(id, ProcessDataView { cancelled: true, ..self.processes[id] })
    }

    /// The state in which a process has the arguments `args`.
    pub open spec fn with_args(self, id: u64, args: Seq<Seq<char>>) -> ManagerState {
        self.with_process(id, ProcessView { args, ..self.processes[id].process })
    }

    /// The state in which a process has the environment variables `env`.
    pub open spec fn with_env(self, id: u64, env: Seq<(Seq<char>, Seq<char>)>) -> ManagerState {
        self.with_process(id, ProcessView { env, ..self.processes[id].process })
    }

    /// The state in which `fds` produces the file descriptors to share with the next child of a
    /// process.
    pub open spec fn with_fds(self, id: u64, fds: Handle) -> ManagerState {
        self.with_process(
            id,
            ProcessView {
                callbacks: ProcessCallbacks {
                    fds: Some(fds),
                    ..self.processes[id].process.callbacks
                },
                ..self.processes[id].process
            },
        )
    }

    /// Whether this state can come after `before`: nothing that was managed is forgotten or
    /// becomes another process, and nothing that was stopped runs again.
    pub open spec fn follows(self, before: ManagerState) -> bool {
        &&& before.stopped ==> self.stopped
        &&& forall|id: u64| #[trigger]
            before.manages(id) ==> {
                &&& self.manages(id)
                &&& self.processes[id].process.executable == before.processes[id].process.executable
                &&& self.processes[id].process.stdin_tx == before.processes[id].process.stdin_tx
                &&& self.processes[id].cancel_timeout == before.processes[id].cancel_timeout
                &&& before.processes[id].cancelled ==> self.processes[id].cancelled
            }
    }

    /// The answer to a request that does nothing but change a process, if it is managed.
    pub open spec fn answer(self, id: u64) -> Result<(), Error> {
        if self.manages(id) {
            Ok(())
        } else {
            Err(Error::NonExistantProcess)
        }
    }

    /// Whether the process with the given key number is to end: it was stopped, or everything
    /// was.
    pub open spec fn is_cancelled(self, id: u64) -> bool {
        self.stopped || (self.manages(id) && self.processes[id].cancelled)
    }

    /// How long a process may take to exit once it has been stopped.
    pub open spec fn cancel_timeout(self, id: u64) -> Option<Duration> {
        if self.manages(id) {
            self.processes[id].cancel_timeout
        } else {
            None
        }
    }

    /// Whether no restart of the process is left to attempt.
    pub open spec fn exhausted(self, id: u64) -> bool {
        !self.manages(id) || self.processes[id].restarts >= self.max_restarts
    }

    /// The state after the process has exited, at `now`.
    pub open spec fn after_exit(self, id: u64, now: Duration) -> ManagerState {
        self.with_entry(id, self.processes[id].forgiven(now))
    }

    /// Whether a process that exits, at `now`, is to be restarted.
    pub open spec fn restarts_after_exit(self, id: u64, success: bool, now: Duration) -> bool {
        !success && self.max_restarts > self.processes[id].forgiven(now).restarts
    }

    /// Whether `delay` is one to wait before the process is restarted.
    pub open spec fn allows_delay(self, id: u64, delay: Option<Duration>) -> bool {
        match self.restart_mode {
            RestartMode::Instant => delay is None,
            RestartMode::Delayed(span) => delay == Some(span),
            RestartMode::ExponentialBackoff(base) => {
                let restarts = self.processes[id].restarts as nat;
                &&& delay is Some
                &&& backoff_allows(base, self.max_backoff, restarts, delay->0)
                &&& is_drawn_backoff(base, self.max_backoff, restarts, delay->0)
            },
        }
    }

    /// The state in which a restart of the process has been attempted: the attempt has been
    /// counted, and the file descriptors have been taken.
    pub open spec fn after_attempt(self, id: u64) -> ManagerState {
        self.with_entry(id, self.processes[id].attempted())
    }

    /// The state in which the process has been restarted, at `now`, as a child with the id `pid`.
    pub open spec fn after_restart(self, id: u64, pid: Option<u32>, now: Duration) -> ManagerState {
        self.with_entry(id, ProcessDataView { pid, started_at: now, ..self.processes[id] })
    }
}

/// What is known of `process` when it is started at `now`: nothing has happened yet, and the
/// callbacks and the receiver for stdin messages have been taken out of it.
pub open spec fn fresh_entry(process: ProcessView, now: Duration) -> ProcessDataView {
    ProcessDataView {
        process: ProcessView { callbacks: no_callbacks(), stdin_rx: None, ..process },
        pid: None,
        restarts: 0,
        started_at: now,
        cancelled: false,
        cancel_timeout: process.cancel_timeout,
    }
}

impl ProcessDataView {
    /// How long the current child has been up at `now`, in nanoseconds.
    pub open spec fn uptime(self, now: Duration) -> nat {
        if now@ >= self.started_at@ {
            (now@ - self.started_at@) as nat
        } else {
            0
        }
    }

    /// Forgets earlier restarts if the child has proven, at `now`, that it can stay up.
    pub open spec fn forgiven(self, now: Duration) -> ProcessDataView {
        if self.uptime(now) >= RESTART_DECAY_UPTIME_SECS as nat * 1_000_000_000 {
            ProcessDataView { restarts: 0, ..self }
        } else {
            self
        }
    }

    /// Counts a restart, and takes the file descriptors for it.
    pub open spec fn attempted(self) -> ProcessDataView {
        ProcessDataView {
            process: ProcessView {
                callbacks: ProcessCallbacks { fds: None, ..self.process.callbacks },
                ..self.process
            },
            restarts: (self.restarts + 1) as usize,
            ..self
        }
    }
}

/// A process that is about to be started.
#[derive(Debug)]
pub struct Launch {
    /// The key of the process.
    pub key: ProcessKey,
    /// What to make the child from.
    pub command: Command,
    /// The callbacks of the process, but for the one that produces file descriptors.
    pub callbacks: ProcessCallbacks,
    /// What produces the file descriptors to share with the child.
    pub fds: Option<Handle>,
    /// The channel from which messages for stdin are received.
    pub stdin_rx: Handle,
}

/// Whether `launch` answers the request to start `process` at `now`, and takes the manager from
/// `before` to `after`.
///
/// The request is refused if the manager has been stopped, or if the receiver for stdin messages
/// is missing, and then nothing changes. Otherwise the process is managed, under a new key that
/// is not the default one, and its callbacks and its receiver are handed over.
pub open spec fn is_launch(
    before: ManagerState,
    process: ProcessView,
    now: Duration,
    launch: Result<Launch, Error>,
    after: ManagerState,
) -> bool {
    if before.stopped {
        launch is Err && launch->Err_0 == Error::Stopped && after == before
    } else if process.stdin_rx is None {
        launch is Err && launch->Err_0 == Error::MissingStdinReceiver && after == before
    } else {
        &&& launch is Ok
        &&& !before.manages(launch->Ok_0.key@)
        &&& launch->Ok_0.key@ != NULL_KEY_ID
        &&& after == before.with_entry(launch->Ok_0.key@, fresh_entry(process, now))
        &&& launch->Ok_0.command@ == process.command()
        &&& launch->Ok_0.callbacks == (ProcessCallbacks { fds: None, ..process.callbacks })
        &&& launch->Ok_0.fds == process.callbacks.fds
        &&& Some(launch->Ok_0.stdin_rx) == process.stdin_rx
    }
}

/// A child that is about to be started in place of one that has exited.
#[derive(Debug)]
pub struct Respawn {
    /// What to make the child from.
    pub command: Command,
    /// What produces the file descriptors to share with the child.
    pub fds: Option<Handle>,
}

/// A message on its way to the stdin of a process.
#[derive(Debug)]
pub struct Delivery {
    /// The channel to send it over.
    pub channel: Handle,
    /// The message.
    pub message: Vec<u8>,
}

/// What reaches the loop that starts processes.
#[derive(Debug)]
pub enum Request {
    /// The manager has been stopped.
    Cancelled,
    /// A process is to be started.
    Start(Process),
    /// Nobody is left who could ask for anything.
    Closed,
}

/// What the loop that starts processes is to do.
#[derive(Debug)]
pub enum Reply {
    /// End.
    Exit,
    /// Start the process, or answer that it is refused.
    Started(Result<Launch, Error>),
}

/// Manages processes.
pub struct ProcessManager {
    restart_mode: RestartMode,
    max_restarts: usize,
    max_backoff: Duration,
    liveness_interval: Option<Duration>,
    stopped: bool,
    processes: ProcessTable,
}

/// What a table holds, as models.
spec fn entries(table: ProcessTable) -> Map<u64, ProcessDataView> {
    contents(table).map_values(|data: ProcessData| data@)
}

/// Changing one process in a table changes one entry.
proof fn lemma_entries_insert(before: ProcessTable, after: ProcessTable, id: u64, data: ProcessData)
    requires
        contents(after) == contents(before).insert(id, data),
    ensures
        entries(after) == entries(before).insert(id, data@),
{
    assert(entries(after) =~= entries(before).insert(id, data@));
}

impl View for ProcessManager {
    type V = ManagerState;

    closed spec fn view(&self) -> ManagerState {
        ManagerState {
            restart_mode: self.restart_mode,
            max_restarts: self.max_restarts,
            max_backoff: self.max_backoff,
            liveness_interval: self.liveness_interval,
            stopped: self.stopped,
            processes: entries(self.processes),
        }
    }
}

impl ProcessManager {
    /// Whether another process can be managed. There is room for more of them than a machine
    /// can run.
    pub open spec fn has_room(self) -> bool {
        self@.processes.len() + 1 < u32::MAX
    }

    /// Creates a process manager that manages nothing.
    pub fn new() -> (manager: Self)
        ensures
            is_initial(manager@),
    {
        let manager = ProcessManager {
            restart_mode: RestartMode::Instant,
            max_restarts: DEFAULT_MAX_RESTARTS,
            max_backoff: Duration::from_secs(DEFAULT_MAX_BACKOFF_SECS),
            liveness_interval: Some(Duration::from_secs(DEFAULT_LIVENESS_INTERVAL_SECS)),
            stopped: false,
            processes: ProcessTable::new(),
        };
        assert(manager@.processes =~= Map::<u64, ProcessDataView>::empty());
        manager
    }

    /// Returns the current restart mode.
    pub fn restart_mode(&self) -> (restart_mode: RestartMode)
        ensures
            restart_mode == self@.restart_mode,
    {
        self.restart_mode
    }

    /// Sets the restart mode.
    pub fn set_restart_mode(&mut self, restart_mode: RestartMode)
        ensures
            final(self)@.follows(old(self)@),
            called(old(self)@, Call::SetRestartMode { restart_mode }, final(self)@),
            final(self)@ == (ManagerState { restart_mode, ..old(self)@ }),
    {
        self.restart_mode = restart_mode;
    }

    /// Returns the maximum amount of times a process can be restarted before giving up.
    pub fn max_restarts(&self) -> (max_restarts: usize)
        ensures
            max_restarts == self@.max_restarts,
    {
        self.max_restarts
    }

    /// Sets the maximum amount of times a process can be restarted before giving up.
    pub fn set_max_restarts(&mut self, max_restarts: usize)
        ensures
            final(self)@.follows(old(self)@),
            called(old(self)@, Call::SetMaxRestarts { max_restarts }, final(self)@),
            final(self)@ == (ManagerState { max_restarts, ..old(self)@ }),
    {
        self.max_restarts = max_restarts;
    }

    /// Returns the ceiling applied to [`RestartMode::ExponentialBackoff`].
    pub fn max_backoff(&self) -> (max_backoff: Duration)
        ensures
            max_backoff == self@.max_backoff,
    {
        self.max_backoff
    }

    /// Sets the ceiling applied to [`RestartMode::ExponentialBackoff`].
    ///
    /// Defaults to [`DEFAULT_MAX_BACKOFF_SECS`]. The backoff doubles per restart up to this
    /// value and no further.
    pub fn set_max_backoff(&mut self, max_backoff: Duration)
        ensures
            final(self)@.follows(old(self)@),
            called(old(self)@, Call::SetMaxBackoff { max_backoff }, final(self)@),
            final(self)@ == (ManagerState { max_backoff, ..old(self)@ }),
    {
        self.max_backoff = max_backoff;
    }

    /// Returns how often supervised processes are checked for a death that `waitpid` cannot
    /// report, or `None` if the check is disabled.
    pub fn liveness_interval(&self) -> (interval: Option<Duration>)
        ensures
            interval == self@.liveness_interval,
    {
        self.liveness_interval
    }

    /// Sets how often supervised processes are checked for a death that `waitpid` cannot
    /// report, see [`crate::liveness`]. `None` disables the check. It goes for every process that
    /// is supervised, also for one that was started before.
    ///
    /// Defaults to [`DEFAULT_LIVENESS_INTERVAL_SECS`]. When the check trips, the surviving
    /// threads are killed so the pending wait can complete and the process is reported through
    /// the normal exit path.
    pub fn set_liveness_interval(&mut self, interval: Option<Duration>)
        ensures
            final(self)@.follows(old(self)@),
            called(old(self)@, Call::SetLivenessInterval { interval }, final(self)@),
            final(self)@ == (ManagerState { liveness_interval: interval, ..old(self)@ }),
    {
        self.liveness_interval = interval;
    }

    /// Returns whether the process manager has been stopped or not. If the process manager has
    /// been stopped, no new processes can be started.
    pub fn is_stopped(&self) -> (stopped: bool)
        ensures
            stopped == self@.stopped,
    {
        self.stopped
    }

    /// Stops the process manager, halting all processes and preventing new processes from being
    /// started.
    pub fn stop(&mut self)
        ensures
            final(self)@.follows(old(self)@),
            called(old(self)@, Call::Stop, final(self)@),
            final(self)@ == (ManagerState { stopped: true, ..old(self)@ }),
    {
        self.stopped = true;
    }

    /// Stops a single process.
    pub fn stop_process(&mut self, key: ProcessKey) -> (answer: Result<(), Error>)
        ensures
            final(self)@.follows(old(self)@),
            called(old(self)@, Call::StopProcess { id: key@ }, final(self)@),
            answer == old(self)@.answer(key@),
            final(self)@ == (if answer is Ok {
                old(self)@.with_cancelled(key@)
            } else {
                old(self)@
            }),
    {
        match self.processes.get_mut(key) {
            Some(data) => {
                data.cancelled = true;
            },
            None => {
                return Err(Error::NonExistantProcess);
            },
        }
        proof {
            lemma_entries_insert(
                old(self).processes,
                self.processes,
                key@,
                contents(self.processes)[key@],
            );
        }
        Ok(())
    }

    /// Returns whether the process under `key` is to end, because it or the manager has been
    /// stopped.
    pub fn is_cancelled(&self, key: ProcessKey) -> (cancelled: bool)
        ensures
            cancelled == self@.is_cancelled(key@),
    {
        if self.stopped {
            true
        } else {
            match self.processes.get(key) {
                Some(data) => data.cancelled,
                None => false,
            }
        }
    }
}

/// The text of a process: its environment variables, its executable and its arguments, with a
/// space between them.
pub open spec fn process_text(process: ProcessView) -> Seq<char> {
    crate::process::env_text(process.env) + " "@ + quoted(process.executable) + " "@
        + crate::process::args_text(process.args)
}

impl ProcessManager {
    /// Returns whether there is no room for another process.
    pub fn is_full(&self) -> (full: bool)
        ensures
            full == !self.has_room(),
    {
        assert(entries(self.processes).dom() =~= contents(self.processes).dom());
        self.processes.len() >= 0xffff_fffe
    }

    /// Starts a process with the given configuration, at `now`.
    ///
    /// It is refused if the manager has been stopped, or if the receiver for stdin messages is
    /// missing. Otherwise it is managed from now on, which takes room for it, and the child can
    /// be made. What came of that is to be reported with [`ProcessManager::process_started`].
    pub fn start_process(&mut self, process: Process, now: Duration) -> (launch: Result<
        Launch,
        Error,
    >)
        requires
            old(self)@.refuses(process@) || old(self).has_room(),
        ensures
            final(self)@.follows(old(self)@),
            called(old(self)@, Call::StartProcess { process: process@, now, launch }, final(self)@),
            is_launch(old(self)@, process@, now, launch, final(self)@),
    {
        if self.stopped {
            return Err(Error::Stopped);
        }
        let stdin_rx = match process.stdin_rx {
            Some(stdin_rx) => stdin_rx,
            None => {
                return Err(Error::MissingStdinReceiver);
            },
        };
        let ghost asked = process@;
        let callbacks = ProcessCallbacks { fds: None, ..process.callbacks };
        let fds = process.callbacks.fds;
        let command = process.command();
        let cancel_timeout = process.cancel_timeout;
        let data = ProcessData {
            process: Process {
                callbacks: ProcessCallbacks::default(),
                stdin_rx: None,
                ..process
            },
            pid: None,
            restarts: 0,
            started_at: now,
            cancelled: false,
            cancel_timeout,
        };
        assert(data@ == fresh_entry(asked, now));
        assert(entries(self.processes).dom() =~= contents(self.processes).dom());
        let ghost added = data;
        let key = self.processes.insert(data);
        proof {
            lemma_entries_insert(old(self).processes, self.processes, key@, added);
        }
        Ok(Launch { key, command, callbacks, fds, stdin_rx })
    }

    /// One turn of the loop that starts processes one by one: it ends when the manager has been
    /// stopped or nobody is left to ask, and starts what it is asked to start.
    pub fn handle_request(&mut self, request: Request, now: Duration) -> (reply: Reply)
        requires
            request matches Request::Start(process) ==> old(self)@.refuses(process@) || old(
                self,
            ).has_room(),
        ensures
            final(self)@.follows(old(self)@),
            match request {
                Request::Start(process) => {
                    &&& reply is Started
                    &&& is_launch(old(self)@, process@, now, reply->Started_0, final(self)@)
                    &&& called(
                        old(self)@,
                        Call::StartProcess { process: process@, now, launch: reply->Started_0 },
                        final(self)@,
                    )
                },
                _ => reply is Exit && final(self)@ == old(self)@,
            },
    {
        match request {
            Request::Cancelled => Reply::Exit,
            Request::Closed => Reply::Exit,
            Request::Start(process) => Reply::Started(self.start_process(process, now)),
        }
    }

    /// The outcome of handing a process to the loop that starts processes: its answer, or an
    /// error if it ended without one.
    pub fn start(answer: Option<Result<ProcessKey, Error>>) -> (outcome: Result<ProcessKey, Error>)
        ensures
            outcome == (match answer {
                Some(answer) => answer,
                None => Err(Error::ReturnMessage),
            }),
    {
        match answer {
            Some(answer) => answer,
            None => Err(Error::ReturnMessage),
        }
    }

    /// Send a message to a process over stdin. Whether it could be sent is to be reported with
    /// [`ProcessManager::message_sent`].
    pub fn send_message(&self, key: ProcessKey, message: Vec<u8>) -> (delivery: Result<
        Delivery,
        Error,
    >)
        ensures
            match delivery {
                Ok(delivery) => {
                    &&& self@.manages(key@)
                    &&& delivery.channel == self@.processes[key@].process.stdin_tx
                    &&& delivery.message == message
                },
                Err(error) => !self@.manages(key@) && error == Error::NonExistantProcess,
            },
    {
        match self.processes.get(key) {
            Some(data) => Ok(Delivery { channel: data.process.stdin_tx, message }),
            None => Err(Error::NonExistantProcess),
        }
    }

    /// The answer to a request to send a message, once it was `sent` or could not be.
    pub fn message_sent(sent: bool) -> (answer: Result<(), Error>)
        ensures
            answer == (if sent {
                Ok(())
            } else {
                Err(Error::StdinMessage)
            }),
    {
        if sent {
            Ok(())
        } else {
            Err(Error::StdinMessage)
        }
    }

    /// Just gives you the exe, along with the pid, of a managed process.
    pub fn get_exe_and_pid(&self, key: ProcessKey) -> (found: Result<(String, Option<u32>), Error>)
        ensures
            match found {
                Ok(found) => {
                    &&& self@.manages(key@)
                    &&& found.0@ == self@.processes[key@].process.executable
                    &&& found.1 == self@.processes[key@].pid
                },
                Err(error) => !self@.manages(key@) && error == Error::NonExistantProcess,
            },
    {
        match self.processes.get(key) {
            Some(data) => Ok((data.process.executable.clone(), data.pid)),
            None => Err(Error::NonExistantProcess),
        }
    }

    /// Get the pid of a managed process.
    pub fn get_pid(&self, key: ProcessKey) -> (pid: Result<Option<u32>, Error>)
        ensures
            pid == (if self@.manages(key@) {
                Ok(self@.processes[key@].pid)
            } else {
                Err(Error::NonExistantProcess)
            }),
    {
        match self.processes.get(key) {
            Some(data) => Ok(data.pid),
            None => Err(Error::NonExistantProcess),
        }
    }

    /// The text of a managed process. Used for logging.
    pub fn describe(&self, key: ProcessKey) -> (text: Result<String, Error>)
        ensures
            match text {
                Ok(text) => self@.manages(key@) && text@ == process_text(
                    self@.processes[key@].process,
                ),
                Err(error) => !self@.manages(key@) && error == Error::NonExistantProcess,
            },
    {
        match self.processes.get(key) {
            Some(data) => {
                let mut text = data.process.env_text();
                text.append(" ");
                text.append(data.process.exe_text().as_str());
                text.append(" ");
                text.append(data.process.args_text().as_str());
                Ok(text)
            },
            None => Err(Error::NonExistantProcess),
        }
    }

    /// Update the args of a managed process. This will reset previous args if they are not set
    /// again. Changes will be applied after the process restarts.
    pub fn update_process_args(&mut self, key: &ProcessKey, args: Vec<String>) -> (answer: Result<
        (),
        Error,
    >)
        ensures
            final(self)@.follows(old(self)@),
            called(old(self)@, Call::UpdateProcessArgs { id: key@, args: texts(args@) }, final(self)@),
            answer == old(self)@.answer(key@),
            final(self)@ == (if answer is Ok {
                old(self)@.with_args(key@, texts(args@))
            } else {
                old(self)@
            }),
    {
        match self.processes.get_mut(*key) {
            Some(data) => {
                data.process.args = args;
            },
            None => {
                return Err(Error::NonExistantProcess);
            },
        }
        proof {
            lemma_entries_insert(
                old(self).processes,
                self.processes,
                key@,
                contents(self.processes)[key@],
            );
        }
        Ok(())
    }

    /// Update the env of a managed process. The names in `env` are bound anew, and the others
    /// keep their values. Changes will be applied after the process restarts.
    pub fn update_process_env(&mut self, key: &ProcessKey, env: Vec<(String, String)>) -> (answer:
        Result<(), Error>)
        ensures
            final(self)@.follows(old(self)@),
            called(old(self)@, Call::UpdateProcessEnv { id: key@, update: bindings(env@) }, final(self)@),
            answer == old(self)@.answer(key@),
            final(self)@ == (if answer is Ok {
                old(self)@.with_env(
                    key@,
                    updated_env(old(self)@.processes[key@].process.env, bindings(env@)),
                )
            } else {
                old(self)@
            }),
    {
        match self.processes.get_mut(*key) {
            Some(data) => {
                data.process.update_env(env);
            },
            None => {
                return Err(Error::NonExistantProcess);
            },
        }
        proof {
            lemma_entries_insert(
                old(self).processes,
                self.processes,
                key@,
                contents(self.processes)[key@],
            );
        }
        Ok(())
    }

    /// Sets what produces the file descriptors to share with the child of a managed process.
    /// Changes will be applied after the process restarts.
    pub fn update_process_fds(&mut self, key: &ProcessKey, fds: Handle) -> (answer: Result<
        (),
        Error,
    >)
        ensures
            final(self)@.follows(old(self)@),
            called(old(self)@, Call::UpdateProcessFds { id: key@, fds }, final(self)@),
            answer == old(self)@.answer(key@),
            final(self)@ == (if answer is Ok {
                old(self)@.with_fds(key@, fds)
            } else {
                old(self)@
            }),
    {
        match self.processes.get_mut(*key) {
            Some(data) => {
                data.process.callbacks.fds = Some(fds);
            },
            None => {
                return Err(Error::NonExistantProcess);
            },
        }
        proof {
            lemma_entries_insert(
                old(self).processes,
                self.processes,
                key@,
                contents(self.processes)[key@],
            );
        }
        Ok(())
    }

    /// Clear the env of a managed process. Changes will be applied after the process restarts.
    pub fn clear_process_env(&mut self, key: &ProcessKey) -> (answer: Result<(), Error>)
        ensures
            final(self)@.follows(old(self)@),
            called(old(self)@, Call::ClearProcessEnv { id: key@ }, final(self)@),
            answer == old(self)@.answer(key@),
            final(self)@ == (if answer is Ok {
                old(self)@.with_env(key@, Seq::empty())
            } else {
                old(self)@
            }),
    {
        match self.processes.get_mut(*key) {
            Some(data) => {
                data.process.env.clear();
                assert(bindings(data.process.env@) =~= Seq::empty());
            },
            None => {
                return Err(Error::NonExistantProcess);
            },
        }
        proof {
            lemma_entries_insert(
                old(self).processes,
                self.processes,
                key@,
                contents(self.processes)[key@],
            );
        }
        Ok(())
    }
}

/// What happens to the child of a managed process.
impl ProcessManager {
    /// Returns whether the process under `key` is managed. None is under the default key.
    pub fn manages(&self, key: ProcessKey) -> (managed: bool)
        ensures
            key@ == NULL_KEY_ID ==> !managed,
            managed == self@.manages(key@),
    {
        self.processes.get(key).is_some()
    }

    /// How long the process may take to exit once it has been stopped.
    pub fn cancel_timeout(&self, key: ProcessKey) -> (timeout: Option<Duration>)
        ensures
            timeout == self@.cancel_timeout(key@),
    {
        match self.processes.get(key) {
            Some(data) => data.cancel_timeout,
            None => None,
        }
    }

    /// Returns how often a restart of the process has been attempted since the count was last
    /// forgiven, or `None` if the process is not managed.
    pub fn restarts(&self, key: ProcessKey) -> (restarts: Option<usize>)
        ensures
            restarts == (if self@.manages(key@) {
                Some(self@.processes[key@].restarts)
            } else {
                None
            }),
    {
        match self.processes.get(key) {
            Some(data) => Some(data.restarts),
            None => None,
        }
    }

    /// Records the process id of the first child of a process.
    pub fn child_spawned(&mut self, key: ProcessKey, pid: Option<u32>)
        requires
            old(self)@.manages(key@),
        ensures
            final(self)@.follows(old(self)@),
            called(old(self)@, Call::ChildSpawned { id: key@, pid }, final(self)@),
            final(self)@ == old(self)@.with_pid(key@, pid),
    {
        match self.processes.get_mut(key) {
            Some(data) => {
                data.pid = pid;
            },
            None => {},
        }
        proof {
            lemma_entries_insert(
                old(self).processes,
                self.processes,
                key@,
                contents(self.processes)[key@],
            );
        }
    }

    /// Decides whether a process whose child has exited, at `now`, is to be restarted.
    ///
    /// Earlier restarts are forgiven once a process has proven it can stay up, so occasional
    /// crashes spread over a long session neither pin the backoff at its ceiling nor exhaust
    /// `max_restarts`. Returns `None` if the process is not managed.
    pub fn child_exited(&mut self, key: ProcessKey, success: bool, now: Duration) -> (restarting:
        Option<bool>)
        ensures
            final(self)@.follows(old(self)@),
            called(old(self)@, Call::ChildExited { id: key@, now }, final(self)@),
            match restarting {
                Some(restarting) => {
                    &&& old(self)@.manages(key@)
                    &&& final(self)@ == old(self)@.after_exit(key@, now)
                    &&& restarting == old(self)@.restarts_after_exit(key@, success, now)
                },
                None => !old(self)@.manages(key@) && final(self)@ == old(self)@,
            },
    {
        let max_restarts = self.max_restarts;
        let decay = Duration::from_secs(RESTART_DECAY_UPTIME_SECS);
        let restarts: usize;
        match self.processes.get_mut(key) {
            Some(data) => {
                if now.saturating_sub(data.started_at).is_at_least(&decay) {
                    data.restarts = 0;
                }
                restarts = data.restarts;
            },
            None => {
                return None;
            },
        }
        proof {
            lemma_entries_insert(
                old(self).processes,
                self.processes,
                key@,
                contents(self.processes)[key@],
            );
        }
        Some(!success && max_restarts > restarts)
    }

    /// How long to wait before the process is restarted.
    pub fn restart_delay(&self, key: ProcessKey) -> (delay: Result<Option<Duration>, Error>)
        ensures
            match delay {
                Ok(delay) => self@.manages(key@) && self@.allows_delay(key@, delay),
                Err(error) => !self@.manages(key@) && error == Error::InvalidProcess(key),
            },
    {
        match self.processes.get(key) {
            Some(data) => Ok(
                match self.restart_mode {
                    RestartMode::Instant => None,
                    RestartMode::Delayed(span) => Some(span),
                    RestartMode::ExponentialBackoff(base) => Some(
                        Self::exponential_backoff(base, self.max_backoff, data.restarts),
                    ),
                },
            ),
            None => Err(Error::InvalidProcess(key)),
        }
    }

    /// Attempts to restart a process, once it has waited. What came of the attempt is to be
    /// reported with [`ProcessManager::child_respawned`], if it succeeded.
    ///
    /// The attempt is counted before it can fail. Counting it only on success would let a spawn
    /// that keeps failing retry forever at the same delay, since both the backoff and
    /// `max_restarts` are driven by this counter.
    pub fn restart_process(&mut self, key: ProcessKey) -> (respawn: Result<Respawn, Error>)
        requires
            old(self)@.manages(key@) ==> old(self)@.processes[key@].restarts < usize::MAX,
        ensures
            final(self)@.follows(old(self)@),
            called(old(self)@, Call::RestartProcess { id: key@ }, final(self)@),
            match respawn {
                Ok(respawn) => {
                    &&& old(self)@.manages(key@)
                    &&& final(self)@ == old(self)@.after_attempt(key@)
                    &&& respawn.command@ == old(self)@.processes[key@].process.command()
                    &&& respawn.fds == old(self)@.processes[key@].process.callbacks.fds
                },
                Err(error) => {
                    &&& !old(self)@.manages(key@)
                    &&& final(self)@ == old(self)@
                    &&& error == Error::InvalidProcess(key)
                },
            },
    {
        let respawn: Respawn;
        match self.processes.get_mut(key) {
            Some(data) => {
                let fds = data.process.callbacks.fds;
                data.process.callbacks.fds = None;
                data.restarts = data.restarts + 1;
                respawn = Respawn { command: data.process.command(), fds };
            },
            None => {
                return Err(Error::InvalidProcess(key));
            },
        }
        proof {
            lemma_entries_insert(
                old(self).processes,
                self.processes,
                key@,
                contents(self.processes)[key@],
            );
        }
        Ok(respawn)
    }

    /// Records the process id of a child that was spawned, at `now`, in place of one that has
    /// exited.
    pub fn child_respawned(&mut self, key: ProcessKey, pid: Option<u32>, now: Duration)
        requires
            old(self)@.manages(key@),
        ensures
            final(self)@.follows(old(self)@),
            called(old(self)@, Call::ChildRespawned { id: key@, pid, now }, final(self)@),
            final(self)@ == old(self)@.after_restart(key@, pid, now),
    {
        match self.processes.get_mut(key) {
            Some(data) => {
                data.pid = pid;
                data.started_at = now;
            },
            None => {},
        }
        proof {
            lemma_entries_insert(
                old(self).processes,
                self.processes,
                key@,
                contents(self.processes)[key@],
            );
        }
    }

    /// Returns whether no restart of the process is left to attempt.
    pub fn restarts_exhausted(&self, key: ProcessKey) -> (exhausted: bool)
        ensures
            exhausted == self@.exhausted(key@),
    {
        match self.processes.get(key) {
            Some(data) => data.restarts >= self.max_restarts,
            None => true,
        }
    }
}

} // verus!
