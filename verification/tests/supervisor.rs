use launch_pad::error::Error;
use launch_pad::process::Process;
use launch_pad::supervisor::{
    Action, Event, ExitStatus, Phase, SpawnOutcome, Supervisor, KILLED_EXIT_CODE,
};
use launch_pad::{Duration, ProcessManager, RestartMode};

const ON_STDOUT: u64 = 1;
const ON_STDERR: u64 = 2;
const ON_START: u64 = 3;
const ON_EXIT: u64 = 4;

fn at(secs: u64) -> Duration {
    Duration::from_secs(secs)
}

fn process() -> Process {
    Process::new(9)
        .with_executable("tool".to_string())
        .with_on_stdout(ON_STDOUT)
        .with_on_stderr(ON_STDERR)
        .with_on_start(ON_START)
        .with_on_exit(ON_EXIT)
}

fn started(manager: &mut ProcessManager, process: Process) -> Supervisor {
    let launch = manager.start_process(process, at(0)).unwrap();
    manager
        .process_started(
            launch.key,
            launch.callbacks,
            SpawnOutcome::Spawned { pid: Some(50) },
        )
        .unwrap()
        .supervisor
}

/// Hands `event` over, which must be one that the supervisor is waiting for.
fn tell(manager: &mut ProcessManager, supervisor: &mut Supervisor, event: Event) -> Action {
    assert!(supervisor.is_waiting_for(&event), "{event:?}");
    manager.supervise(supervisor, event)
}

fn failure(code: i32) -> Event {
    Event::Exited {
        status: Some(ExitStatus {
            success: false,
            code: Some(code),
        }),
        now: at(1),
    }
}

/// Lets the child exit, with nothing left to read.
fn exit(manager: &mut ProcessManager, supervisor: &mut Supervisor, event: Event) -> Action {
    assert!(matches!(
        tell(manager, supervisor, event),
        Action::Drain
    ));
    tell(manager, supervisor, Event::Drained)
}

fn stuck(threads: u64) -> Event {
    Event::LeaderStatus {
        text: Some(format!("State:\tZ (zombie)\nThreads:\t{threads}\n")),
    }
}

#[test]
fn first_child_is_announced_as_started() {
    let mut manager = ProcessManager::new();
    let launch = manager.start_process(process(), at(0)).unwrap();
    let started = manager
        .process_started(
            launch.key,
            launch.callbacks,
            SpawnOutcome::Spawned { pid: Some(50) },
        )
        .unwrap();
    assert_eq!(started.on_start, Some(ON_START));
    assert_eq!(started.supervisor.key, launch.key);
    assert_eq!(started.supervisor.phase, Phase::Running);
    assert_eq!(started.supervisor.tripped_for, None);
    assert_eq!(started.liveness_interval, Some(at(5)));
    assert_eq!(manager.get_pid(launch.key), Ok(Some(50)));
}

#[test]
fn first_child_that_cannot_be_spawned_is_an_error() {
    let mut manager = ProcessManager::new();
    let launch = manager.start_process(process(), at(0)).unwrap();
    let started = manager.process_started(launch.key, launch.callbacks, SpawnOutcome::Failed);
    assert!(matches!(started, Err(Error::Process)));
    // The process stays managed, without a child.
    assert_eq!(manager.get_pid(launch.key), Ok(None));
}

#[test]
fn lines_are_queued_in_order() {
    let mut manager = ProcessManager::new();
    let mut supervisor = started(&mut manager, process());
    for n in 1..=100u64 {
        let line = n.to_string();
        if n % 3 == 0 {
            let action = tell(
                &mut manager,
                &mut supervisor,
                Event::StderrLine { line: line.clone() },
            );
            assert!(matches!(
                action,
                Action::QueueStderr { callback: ON_STDERR, line: queued } if queued == line
            ));
        } else {
            let action = tell(
                &mut manager,
                &mut supervisor,
                Event::StdoutLine { line: line.clone() },
            );
            assert!(matches!(
                action,
                Action::QueueStdout { callback: ON_STDOUT, line: queued } if queued == line
            ));
        }
    }
}

#[test]
fn lines_without_a_callback_are_dropped() {
    let mut manager = ProcessManager::new();
    let mut supervisor = started(&mut manager, Process::new(0));
    for event in [
        Event::StdoutLine {
            line: "a".to_string(),
        },
        Event::StderrLine {
            line: "b".to_string(),
        },
    ] {
        let action = tell(&mut manager, &mut supervisor, event);
        assert!(matches!(action, Action::Select));
    }
}

#[test]
fn messages_are_written_to_stdin() {
    let mut manager = ProcessManager::new();
    let mut supervisor = started(&mut manager, process());
    let action = tell(
        &mut manager,
        &mut supervisor,
        Event::StdinMessage {
            message: vec![104, 105],
        },
    );
    assert!(matches!(action, Action::WriteStdin { message } if message == vec![104, 105]));
    assert_eq!(supervisor.phase, Phase::Running);
}

#[test]
fn wedged_child_is_killed_once_and_supervision_continues() {
    let mut manager = ProcessManager::new();
    manager.set_max_restarts(1);
    let mut supervisor = started(&mut manager, process());
    let tick = || Event::LivenessTick { pid: Some(50) };

    assert!(matches!(
        tell(&mut manager, &mut supervisor, tick()),
        Action::ReadStatus { pid: 50 }
    ));
    assert!(matches!(
        tell(&mut manager, &mut supervisor, stuck(34)),
        Action::KillSurvivors {
            target: Some(50),
            survivors: 33
        }
    ));
    // It is not even looked at again.
    assert!(matches!(
        tell(&mut manager, &mut supervisor, tick()),
        Action::Select
    ));
    // The kill lets the wait complete, and the exit is reported as any other.
    let killed = Event::Exited {
        status: Some(ExitStatus {
            success: false,
            code: None,
        }),
        now: at(2),
    };
    assert!(matches!(
        exit(&mut manager, &mut supervisor, killed),
        Action::ReportExit {
            on_exit: Some(ON_EXIT),
            code: None,
            restarting: true
        }
    ));
    tell(&mut manager, &mut supervisor, Event::ExitReported);
    tell(&mut manager, &mut supervisor, Event::DelayElapsed);
    let spawned = Event::Spawned {
        pid: Some(51),
        now: at(3),
    };
    assert!(matches!(
        tell(&mut manager, &mut supervisor, spawned),
        Action::QueueRestarted { callback: ON_START }
    ));
    // The next child is checked again.
    assert!(matches!(
        tell(
            &mut manager,
            &mut supervisor,
            Event::LivenessTick { pid: Some(51) }
        ),
        Action::ReadStatus { pid: 51 }
    ));
}

#[test]
fn healthy_child_is_not_killed() {
    let mut manager = ProcessManager::new();
    let mut supervisor = started(&mut manager, process());
    for text in [
        None,
        Some("State:\tS (sleeping)\nThreads:\t31\n".to_string()),
        Some("State:\tZ (zombie)\nThreads:\t1\n".to_string()),
    ] {
        let action = tell(
            &mut manager,
            &mut supervisor,
            Event::LivenessTick { pid: Some(50) },
        );
        assert!(matches!(action, Action::ReadStatus { pid: 50 }));
        let action = tell(&mut manager, &mut supervisor, Event::LeaderStatus { text });
        assert!(matches!(action, Action::Select));
        assert_eq!(supervisor.tripped_for, None);
    }
    let action = tell(
        &mut manager,
        &mut supervisor,
        Event::LivenessTick { pid: None },
    );
    assert!(matches!(action, Action::Select));
}

#[test]
fn child_with_the_id_zero_is_never_signalled() {
    let mut manager = ProcessManager::new();
    let mut supervisor = started(&mut manager, process());
    tell(
        &mut manager,
        &mut supervisor,
        Event::LivenessTick { pid: Some(0) },
    );
    assert!(matches!(
        tell(&mut manager, &mut supervisor, stuck(2)),
        Action::KillSurvivors {
            target: None,
            survivors: 1
        }
    ));
}

#[test]
fn no_check_without_an_interval() {
    let mut manager = ProcessManager::new();
    manager.set_liveness_interval(None);
    let mut supervisor = started(&mut manager, process());
    let tick = || Event::LivenessTick { pid: Some(50) };
    assert!(matches!(
        tell(&mut manager, &mut supervisor, tick()),
        Action::Select
    ));
    // An id beyond what the system gives out is no id.
    assert!(!supervisor.is_waiting_for(&Event::Cancelled {
        pid: Some(0x8000_0000)
    }));
}

#[test]
fn changed_interval_goes_for_running_processes() {
    let mut manager = ProcessManager::new();
    let mut supervisor = started(&mut manager, process());
    let tick = || Event::LivenessTick { pid: Some(50) };

    manager.set_liveness_interval(None);
    assert!(matches!(
        tell(&mut manager, &mut supervisor, Event::LivenessChanged),
        Action::SetInterval { period: None }
    ));
    assert!(matches!(
        tell(&mut manager, &mut supervisor, tick()),
        Action::Select
    ));

    manager.set_liveness_interval(Some(at(7)));
    assert!(matches!(
        tell(&mut manager, &mut supervisor, Event::LivenessChanged),
        Action::SetInterval { period: Some(period) } if period == at(7)
    ));
    assert!(matches!(
        tell(&mut manager, &mut supervisor, tick()),
        Action::ReadStatus { pid: 50 }
    ));
    // Disabled between the look and its outcome.
    manager.set_liveness_interval(None);
    assert!(matches!(
        tell(&mut manager, &mut supervisor, stuck(4)),
        Action::Select
    ));
    assert_eq!(supervisor.tripped_for, None);
}

#[test]
fn lines_are_read_to_the_end_before_the_exit_is_reported() {
    let mut manager = ProcessManager::new();
    let mut supervisor = started(&mut manager, process());
    assert!(matches!(
        tell(&mut manager, &mut supervisor, failure(4)),
        Action::Drain
    ));
    for n in 0..10 {
        let line = n.to_string();
        assert!(matches!(
            tell(
                &mut manager,
                &mut supervisor,
                Event::StdoutLine { line: line.clone() }
            ),
            Action::QueueStdout { callback: ON_STDOUT, line: queued } if queued == line
        ));
        assert!(matches!(
            tell(
                &mut manager,
                &mut supervisor,
                Event::StderrLine { line: line.clone() }
            ),
            Action::QueueStderr { callback: ON_STDERR, line: queued } if queued == line
        ));
    }
    assert!(!supervisor.is_waiting_for(&Event::ExitReported));
    assert!(matches!(
        tell(&mut manager, &mut supervisor, Event::Drained),
        Action::ReportExit {
            on_exit: Some(ON_EXIT),
            code: Some(4),
            restarting: true
        }
    ));
}

/// Whenever a pending restart is overtaken by a stop, it does not happen.
#[test]
fn stop_takes_back_a_pending_restart() {
    for everything in [true, false] {
        for turns in 0..4 {
            let mut manager = ProcessManager::new();
            let mut supervisor = started(&mut manager, process());
            let mut events = vec![
                Event::SpawnFailed,
                Event::DelayElapsed,
                Event::ExitReported,
                Event::Drained,
            ];
            tell(&mut manager, &mut supervisor, failure(6));
            for _ in 0..turns {
                tell(&mut manager, &mut supervisor, events.pop().unwrap());
            }
            if everything {
                manager.stop();
            } else {
                manager.stop_process(supervisor.key).unwrap();
            }
            assert!(matches!(
                tell(&mut manager, &mut supervisor, events.pop().unwrap()),
                Action::ReportExit {
                    on_exit: Some(ON_EXIT),
                    code: Some(6),
                    restarting: false
                }
            ));
            assert!(matches!(
                tell(&mut manager, &mut supervisor, Event::ExitReported),
                Action::Finish
            ));
        }
    }
}

#[test]
fn graceful_stop_reports_the_exit_code() {
    let mut manager = ProcessManager::new();
    let mut supervisor = started(&mut manager, process());
    manager.stop_process(supervisor.key).unwrap();
    assert!(matches!(
        tell(
            &mut manager,
            &mut supervisor,
            Event::Cancelled { pid: Some(50) }
        ),
        Action::Terminate {
            target: Some(50),
            timeout: Some(timeout)
        } if timeout == at(1)
    ));
    assert!(matches!(
        tell(
            &mut manager,
            &mut supervisor,
            Event::Terminated { code: Some(3) }
        ),
        Action::ReportExit {
            on_exit: Some(ON_EXIT),
            code: Some(3),
            restarting: false
        }
    ));
    assert!(matches!(
        tell(&mut manager, &mut supervisor, Event::ExitReported),
        Action::Finish
    ));
    assert_eq!(supervisor.phase, Phase::Finished);
}

#[test]
fn forced_stop_reports_137() {
    let mut manager = ProcessManager::new();
    let mut supervisor = started(&mut manager, process().with_cancel_timeout(None));
    manager.stop();
    assert!(matches!(
        tell(
            &mut manager,
            &mut supervisor,
            Event::Cancelled { pid: Some(50) }
        ),
        Action::Terminate {
            target: Some(50),
            timeout: None
        }
    ));
    assert!(matches!(
        tell(
            &mut manager,
            &mut supervisor,
            Event::Terminated { code: None }
        ),
        Action::Kill
    ));
    assert!(matches!(
        tell(&mut manager, &mut supervisor, Event::Killed),
        Action::ReportExit {
            code: Some(137),
            restarting: false,
            ..
        }
    ));
    assert_eq!(KILLED_EXIT_CODE, 137);
    assert!(matches!(
        tell(&mut manager, &mut supervisor, Event::ExitReported),
        Action::Finish
    ));
}

#[test]
fn stopped_child_without_an_id_is_killed_at_once() {
    let mut manager = ProcessManager::new();
    let mut supervisor = started(&mut manager, process());
    assert!(matches!(
        tell(&mut manager, &mut supervisor, Event::Cancelled { pid: None }),
        Action::Kill
    ));
}

#[test]
fn success_ends_the_supervision() {
    let mut manager = ProcessManager::new();
    let mut supervisor = started(&mut manager, process());
    let success = Event::Exited {
        status: Some(ExitStatus {
            success: true,
            code: Some(0),
        }),
        now: at(1),
    };
    assert!(matches!(
        exit(&mut manager, &mut supervisor, success),
        Action::ReportExit {
            code: Some(0),
            restarting: false,
            ..
        }
    ));
    assert!(matches!(
        tell(&mut manager, &mut supervisor, Event::ExitReported),
        Action::Finish
    ));
}

#[test]
fn failed_wait_counts_as_an_exit() {
    let mut manager = ProcessManager::new();
    let mut supervisor = started(&mut manager, process());
    let lost = Event::Exited {
        status: None,
        now: at(1),
    };
    assert!(matches!(
        exit(&mut manager, &mut supervisor, lost),
        Action::ReportExit {
            code: None,
            restarting: true,
            ..
        }
    ));
}

#[test]
fn restart_spawns_the_same_command() {
    let mut manager = ProcessManager::new();
    manager.set_restart_mode(RestartMode::Delayed(at(2)));
    let mut supervisor = started(&mut manager, process().with_args(vec!["a".to_string()]));
    assert!(matches!(
        exit(&mut manager, &mut supervisor, failure(7)),
        Action::ReportExit {
            code: Some(7),
            restarting: true,
            ..
        }
    ));
    assert!(matches!(
        tell(&mut manager, &mut supervisor, Event::ExitReported),
        Action::Delay { drain_stdin: true, delay: Some(delay) } if delay == at(2)
    ));
    match tell(&mut manager, &mut supervisor, Event::DelayElapsed) {
        Action::Spawn { command, fds } => {
            assert_eq!(command.executable, "tool");
            assert_eq!(command.args, vec!["a".to_string()]);
            assert_eq!(fds, None);
        }
        other => panic!("{other:?}"),
    }
    let spawned = Event::Spawned {
        pid: Some(60),
        now: at(5),
    };
    tell(&mut manager, &mut supervisor, spawned);
    assert_eq!(manager.get_pid(supervisor.key), Ok(Some(60)));
    assert_eq!(supervisor.phase, Phase::Running);
}

/// A supervisor goes with the manager that has seen it so far.
#[test]
fn supervisors_are_told_from_strangers() {
    let mut manager = ProcessManager::new();
    let mut supervisor = started(&mut manager, process());
    assert!(manager.is_supervising(&supervisor));
    assert_eq!(manager.restarts(supervisor.key), Some(0));
    exit(&mut manager, &mut supervisor, failure(1));
    assert!(manager.is_supervising(&supervisor));
    tell(&mut manager, &mut supervisor, Event::ExitReported);
    tell(&mut manager, &mut supervisor, Event::DelayElapsed);
    assert_eq!(manager.restarts(supervisor.key), Some(1));
    assert!(manager.is_supervising(&supervisor));

    let stranger = ProcessManager::new();
    assert!(!stranger.is_supervising(&supervisor));
    assert_eq!(stranger.restarts(supervisor.key), None);

    supervisor.phase = Phase::CheckingLeader { pid: 50 };
    assert!(manager.is_supervising(&supervisor));
    supervisor.tripped_for = Some(50);
    assert!(!manager.is_supervising(&supervisor));
    supervisor.phase = Phase::CheckingLeader { pid: 0x8000_0000 };
    assert!(!manager.is_supervising(&supervisor));
}

#[test]
fn failed_attempts_are_counted_and_taken_back() {
    let mut manager = ProcessManager::new();
    manager.set_max_restarts(3);
    let mut supervisor = started(&mut manager, process());
    exit(&mut manager, &mut supervisor, failure(1));
    let mut action = tell(&mut manager, &mut supervisor, Event::ExitReported);
    assert!(matches!(
        action,
        Action::Delay {
            drain_stdin: true,
            delay: None
        }
    ));
    let mut attempts = 0;
    while let Action::Delay { .. } = action {
        assert!(matches!(
            tell(&mut manager, &mut supervisor, Event::DelayElapsed),
            Action::Spawn { .. }
        ));
        attempts += 1;
        action = tell(&mut manager, &mut supervisor, Event::SpawnFailed);
    }
    assert_eq!(attempts, 3);
    // A restart was announced; now it is said that there will be none.
    assert!(matches!(
        action,
        Action::ReportExit {
            on_exit: Some(ON_EXIT),
            code: Some(1),
            restarting: false
        }
    ));
    assert!(matches!(
        tell(&mut manager, &mut supervisor, Event::ExitReported),
        Action::Finish
    ));
}

#[test]
fn later_attempts_do_not_drain_stdin() {
    let mut manager = ProcessManager::new();
    let mut supervisor = started(&mut manager, process());
    exit(&mut manager, &mut supervisor, failure(1));
    tell(&mut manager, &mut supervisor, Event::ExitReported);
    tell(&mut manager, &mut supervisor, Event::DelayElapsed);
    assert!(matches!(
        tell(&mut manager, &mut supervisor, Event::SpawnFailed),
        Action::Delay {
            drain_stdin: false,
            ..
        }
    ));
}

#[test]
fn backoff_grows_with_each_attempt() {
    let mut manager = ProcessManager::new();
    manager.set_max_restarts(100);
    manager.set_max_backoff(Duration::from_millis(50));
    manager.set_restart_mode(RestartMode::ExponentialBackoff(Duration::from_millis(10)));
    let mut supervisor = started(&mut manager, process());
    exit(&mut manager, &mut supervisor, failure(1));
    let mut action = tell(&mut manager, &mut supervisor, Event::ExitReported);
    for longest in [10, 20, 40, 50, 50, 50] {
        match action {
            Action::Delay {
                delay: Some(delay), ..
            } => {
                assert!(delay >= Duration::from_millis(10));
                assert!(delay <= Duration::from_millis(longest));
            }
            other => panic!("{other:?}"),
        }
        tell(&mut manager, &mut supervisor, Event::DelayElapsed);
        action = tell(&mut manager, &mut supervisor, Event::SpawnFailed);
    }
}

#[test]
fn changes_made_while_the_exit_is_reported_reach_the_next_child() {
    let mut manager = ProcessManager::new();
    let mut supervisor = started(&mut manager, process().with_fds(30));
    exit(&mut manager, &mut supervisor, failure(1));
    let key = supervisor.key;
    manager
        .update_process_args(&key, vec!["again".to_string()])
        .unwrap();
    manager
        .update_process_env(&key, vec![("A".to_string(), "1".to_string())])
        .unwrap();
    manager.update_process_fds(&key, 31).unwrap();
    tell(&mut manager, &mut supervisor, Event::ExitReported);
    match tell(&mut manager, &mut supervisor, Event::DelayElapsed) {
        Action::Spawn { command, fds } => {
            assert_eq!(command.args, vec!["again".to_string()]);
            assert_eq!(command.env, vec![("A".to_string(), "1".to_string())]);
            assert_eq!(fds, Some(31));
        }
        other => panic!("{other:?}"),
    }
}

#[test]
fn supervision_touches_one_process() {
    let mut manager = ProcessManager::new();
    let mut one = started(&mut manager, process());
    let two = started(&mut manager, process());
    exit(&mut manager, &mut one, failure(1));
    tell(&mut manager, &mut one, Event::ExitReported);
    tell(&mut manager, &mut one, Event::DelayElapsed);
    let spawned = Event::Spawned {
        pid: Some(99),
        now: at(9),
    };
    tell(&mut manager, &mut one, spawned);
    assert_eq!(manager.get_pid(one.key), Ok(Some(99)));
    assert_eq!(manager.get_pid(two.key), Ok(Some(50)));
}

#[test]
fn vanished_process_ends_the_supervision() {
    let mut elsewhere = ProcessManager::new();
    let mut supervisor = started(&mut elsewhere, process());
    let mut manager = ProcessManager::new();
    assert!(!manager.manages(supervisor.key));
    assert!(matches!(
        tell(&mut manager, &mut supervisor, failure(1)),
        Action::Finish
    ));

    let mut supervisor = started(&mut elsewhere, process());
    exit(&mut elsewhere, &mut supervisor, failure(1));
    assert!(matches!(
        tell(&mut manager, &mut supervisor, Event::ExitReported),
        Action::ReportExit {
            code: Some(1),
            restarting: false,
            ..
        }
    ));
}

#[test]
fn given_delay_is_the_one_that_is_waited_for() {
    let mut manager = ProcessManager::new();
    let mut supervisor = started(&mut manager, process());
    manager.advance(&mut supervisor, failure(1), None);
    manager.advance(&mut supervisor, Event::Drained, None);
    let action = manager.advance(&mut supervisor, Event::ExitReported, Some(at(42)));
    assert!(matches!(
        action,
        Action::Delay { drain_stdin: true, delay: Some(delay) } if delay == at(42)
    ));
}
