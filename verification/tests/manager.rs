use launch_pad::error::Error;
use launch_pad::manager::{Delivery, Launch, Reply, Request};
use launch_pad::process::{Process, ProcessCallbacks};
use launch_pad::{
    Duration, ProcessKey, ProcessManager, RestartMode, DEFAULT_LIVENESS_INTERVAL_SECS,
    DEFAULT_MAX_BACKOFF_SECS, RESTART_DECAY_UPTIME_SECS,
};

fn pair(name: &str, value: &str) -> (String, String) {
    (name.to_string(), value.to_string())
}

fn at(secs: u64) -> Duration {
    Duration::from_secs(secs)
}

fn start(manager: &mut ProcessManager, stdin: u64) -> Launch {
    manager
        .start_process(
            Process::new(stdin)
                .with_executable(format!("tool-{stdin}"))
                .with_args(vec!["-x".to_string()])
                .with_env(vec![pair("A", "1"), pair("B", "2")])
                .with_on_exit(stdin + 100)
                .with_fds(stdin + 200),
            at(0),
        )
        .unwrap()
}

/// A key that `manager` has not given out.
fn unknown_key(manager: &ProcessManager) -> ProcessKey {
    let mut other = ProcessManager::new();
    loop {
        let key = start(&mut other, 0).key;
        if !manager.manages(key) {
            return key;
        }
    }
}

#[test]
fn new_manager_has_the_defaults() {
    let manager = ProcessManager::new();
    assert_eq!(manager.restart_mode(), RestartMode::Instant);
    assert_eq!(manager.max_restarts(), 3);
    assert_eq!(manager.max_backoff(), Duration::from_secs(60));
    assert_eq!(manager.max_backoff(), at(DEFAULT_MAX_BACKOFF_SECS));
    assert_eq!(manager.liveness_interval(), Some(Duration::from_secs(5)));
    assert_eq!(
        manager.liveness_interval(),
        Some(at(DEFAULT_LIVENESS_INTERVAL_SECS))
    );
    assert!(!manager.is_stopped());
    assert!(!manager.is_full());
}

#[test]
fn settings_are_read_back() {
    let mut manager = ProcessManager::new();
    manager.set_restart_mode(RestartMode::Delayed(at(4)));
    manager.set_max_restarts(usize::MAX);
    manager.set_max_backoff(at(9));
    manager.set_liveness_interval(None);
    assert_eq!(manager.restart_mode(), RestartMode::Delayed(at(4)));
    assert_eq!(manager.max_restarts(), usize::MAX);
    assert_eq!(manager.max_backoff(), at(9));
    assert_eq!(manager.liveness_interval(), None);
    assert!(!manager.is_stopped());
}

#[test]
fn starting_hands_everything_over() {
    let mut manager = ProcessManager::new();
    let launch = start(&mut manager, 7);
    assert_eq!(launch.command.executable, "tool-7");
    assert_eq!(launch.command.args, vec!["-x".to_string()]);
    assert_eq!(launch.command.env, vec![pair("A", "1"), pair("B", "2")]);
    assert_eq!(launch.fds, Some(207));
    assert_eq!(launch.stdin_rx, 7);
    assert_eq!(
        launch.callbacks,
        ProcessCallbacks {
            on_exit: Some(107),
            ..ProcessCallbacks::default()
        }
    );
    assert!(manager.manages(launch.key));
    assert_eq!(
        manager.get_exe_and_pid(launch.key),
        Ok(("tool-7".to_string(), None))
    );
    assert!(!manager.is_cancelled(launch.key));
    assert_eq!(manager.cancel_timeout(launch.key), Some(at(1)));
}

#[test]
fn keys_are_unique() {
    let mut manager = ProcessManager::new();
    let keys: Vec<ProcessKey> = (0..50).map(|n| start(&mut manager, n).key).collect();
    for (i, key) in keys.iter().enumerate() {
        assert!(!keys[..i].contains(key));
        assert_eq!(
            manager.get_exe_and_pid(*key),
            Ok((format!("tool-{i}"), None))
        );
    }
    assert_eq!(keys[0].as_ffi() >> 32, 1);
}

#[test]
fn stopped_manager_starts_nothing() {
    let mut manager = ProcessManager::new();
    let before = start(&mut manager, 1);
    manager.stop();
    assert!(manager.is_stopped());
    assert!(manager.is_cancelled(before.key));
    assert_eq!(
        manager.start_process(Process::new(2), at(0)).err(),
        Some(Error::Stopped)
    );
    let reply = manager.handle_request(Request::Start(Process::new(2)), at(0));
    assert!(matches!(reply, Reply::Started(Err(Error::Stopped))));
    manager.set_max_restarts(9);
    manager.stop();
    assert!(manager.is_stopped());
}

#[test]
fn process_without_receiver_is_refused() {
    let mut manager = ProcessManager::new();
    let mut process = Process::new(1);
    process.stdin_rx = None;
    assert_eq!(
        manager.start_process(process, at(0)).err(),
        Some(Error::MissingStdinReceiver)
    );
    // A stopped manager says so first.
    manager.stop();
    let mut process = Process::new(1);
    process.stdin_rx = None;
    assert_eq!(
        manager.start_process(process, at(0)).err(),
        Some(Error::Stopped)
    );
}

#[test]
fn start_loop_ends_when_it_should() {
    let mut manager = ProcessManager::new();
    assert!(matches!(
        manager.handle_request(Request::Cancelled, at(0)),
        Reply::Exit
    ));
    assert!(matches!(
        manager.handle_request(Request::Closed, at(0)),
        Reply::Exit
    ));
    let reply = manager.handle_request(
        Request::Start(Process::new(3).with_executable("a".to_string())),
        at(0),
    );
    let launch = match reply {
        Reply::Started(Ok(launch)) => launch,
        _ => panic!("not started"),
    };
    assert_eq!(launch.stdin_rx, 3);
    assert_eq!(
        ProcessManager::start(Some(Ok(launch.key))),
        Ok(launch.key)
    );
    assert_eq!(
        ProcessManager::start(Some(Err(Error::Process))),
        Err(Error::Process)
    );
    assert_eq!(ProcessManager::start(None), Err(Error::ReturnMessage));
}

#[test]
fn stopping_a_process_leaves_the_others() {
    let mut manager = ProcessManager::new();
    let one = start(&mut manager, 1).key;
    let two = start(&mut manager, 2).key;
    assert_eq!(manager.stop_process(one), Ok(()));
    assert!(manager.is_cancelled(one));
    assert!(!manager.is_cancelled(two));
    assert!(!manager.is_stopped());
    assert_eq!(manager.stop_process(one), Ok(()));
    assert!(manager.is_cancelled(one));
}

#[test]
fn messages_go_to_the_channel_of_the_process() {
    let mut manager = ProcessManager::new();
    let _ = start(&mut manager, 1);
    let two = start(&mut manager, 2).key;
    let delivery = manager.send_message(two, vec![1, 2, 3]);
    assert!(matches!(
        delivery,
        Ok(Delivery { channel: 2, message }) if message == vec![1, 2, 3]
    ));
    assert_eq!(ProcessManager::message_sent(true), Ok(()));
    assert_eq!(
        ProcessManager::message_sent(false),
        Err(Error::StdinMessage)
    );
}

#[test]
fn unknown_processes_do_not_exist() {
    let mut manager = ProcessManager::new();
    let known = start(&mut manager, 1).key;
    let key = unknown_key(&manager);
    assert_ne!(key, known);
    assert!(!manager.manages(key));
    assert_eq!(manager.stop_process(key), Err(Error::NonExistantProcess));
    assert_eq!(
        manager.send_message(key, vec![]).err(),
        Some(Error::NonExistantProcess)
    );
    assert_eq!(
        manager.get_exe_and_pid(key),
        Err(Error::NonExistantProcess)
    );
    assert_eq!(manager.get_pid(key), Err(Error::NonExistantProcess));
    assert_eq!(manager.describe(key), Err(Error::NonExistantProcess));
    assert_eq!(
        manager.update_process_args(&key, vec![]),
        Err(Error::NonExistantProcess)
    );
    assert_eq!(
        manager.update_process_env(&key, vec![]),
        Err(Error::NonExistantProcess)
    );
    assert_eq!(
        manager.update_process_fds(&key, 1),
        Err(Error::NonExistantProcess)
    );
    assert_eq!(
        manager.clear_process_env(&key),
        Err(Error::NonExistantProcess)
    );
    assert_eq!(manager.cancel_timeout(key), None);
    assert_eq!(manager.child_exited(key, false, at(1)), None);
    assert_eq!(manager.restart_delay(key), Err(Error::InvalidProcess(key)));
    assert_eq!(
        manager.restart_process(key).err(),
        Some(Error::InvalidProcess(key))
    );
    assert!(manager.restarts_exhausted(key));
    assert!(!manager.is_cancelled(key));
    manager.stop();
    assert!(manager.is_cancelled(key));
}

#[test]
fn updates_reach_the_next_child() {
    let mut manager = ProcessManager::new();
    let key = start(&mut manager, 1).key;
    let other = start(&mut manager, 2).key;
    manager.child_spawned(key, Some(40));
    assert_eq!(
        manager.update_process_args(&key, vec!["new".to_string()]),
        Ok(())
    );
    assert_eq!(
        manager.update_process_env(&key, vec![pair("B", "9"), pair("C", "3")]),
        Ok(())
    );
    assert_eq!(manager.update_process_fds(&key, 77), Ok(()));
    assert_eq!(manager.get_pid(key), Ok(Some(40)));

    let respawn = manager.restart_process(key).unwrap();
    assert_eq!(respawn.command.executable, "tool-1");
    assert_eq!(respawn.command.args, vec!["new".to_string()]);
    assert_eq!(
        respawn.command.env,
        vec![pair("A", "1"), pair("B", "9"), pair("C", "3")]
    );
    assert_eq!(respawn.fds, Some(77));

    // File descriptors are handed out once.
    assert_eq!(manager.restart_process(key).unwrap().fds, None);

    assert_eq!(manager.clear_process_env(&key), Ok(()));
    assert_eq!(manager.restart_process(key).unwrap().command.env, vec![]);

    let untouched = manager.restart_process(other).unwrap();
    assert_eq!(untouched.command.args, vec!["-x".to_string()]);
    assert_eq!(untouched.command.env, vec![pair("A", "1"), pair("B", "2")]);
    assert_eq!(untouched.fds, None);
}

#[test]
fn process_ids_follow_the_child() {
    let mut manager = ProcessManager::new();
    let key = start(&mut manager, 1).key;
    assert_eq!(manager.get_pid(key), Ok(None));
    manager.child_spawned(key, Some(10));
    assert_eq!(manager.get_pid(key), Ok(Some(10)));
    manager.child_respawned(key, Some(11), at(3));
    assert_eq!(
        manager.get_exe_and_pid(key),
        Ok(("tool-1".to_string(), Some(11)))
    );
}

#[test]
fn failures_are_restarted_until_the_limit() {
    let mut manager = ProcessManager::new();
    let key = start(&mut manager, 1).key;
    manager.set_max_restarts(2);
    for n in 0..2 {
        assert_eq!(manager.child_exited(key, false, at(n)), Some(true));
        assert!(!manager.restarts_exhausted(key));
        assert!(manager.restart_process(key).is_ok());
        manager.child_respawned(key, Some(5), at(n));
    }
    assert!(manager.restarts_exhausted(key));
    assert_eq!(manager.child_exited(key, false, at(3)), Some(false));
    manager.set_max_restarts(3);
    assert_eq!(manager.child_exited(key, false, at(3)), Some(true));
}

#[test]
fn successes_are_not_restarted() {
    let mut manager = ProcessManager::new();
    let key = start(&mut manager, 1).key;
    assert_eq!(manager.child_exited(key, true, at(1)), Some(false));
    manager.set_max_restarts(0);
    assert_eq!(manager.child_exited(key, false, at(1)), Some(false));
}

#[test]
fn staying_up_forgives_restarts() {
    let mut manager = ProcessManager::new();
    let key = start(&mut manager, 1).key;
    manager.set_max_restarts(1);
    assert_eq!(manager.child_exited(key, false, at(1)), Some(true));
    assert!(manager.restart_process(key).is_ok());
    manager.child_respawned(key, Some(5), at(100));
    let almost = Duration::new(100 + RESTART_DECAY_UPTIME_SECS - 1, 999_999_999);
    assert_eq!(manager.child_exited(key, false, almost), Some(false));
    // A clock that reads less than before counts as no uptime.
    assert_eq!(manager.child_exited(key, false, at(2)), Some(false));
    let enough = at(100 + RESTART_DECAY_UPTIME_SECS);
    assert_eq!(manager.child_exited(key, false, enough), Some(true));
    assert!(!manager.restarts_exhausted(key));
}

#[test]
fn delays_follow_the_restart_mode() {
    let mut manager = ProcessManager::new();
    let key = start(&mut manager, 1).key;
    assert_eq!(manager.restart_delay(key), Ok(None));
    let span = Duration::new(3, 141);
    manager.set_restart_mode(RestartMode::Delayed(span));
    assert_eq!(manager.restart_delay(key), Ok(Some(span)));
    manager.set_restart_mode(RestartMode::ExponentialBackoff(Duration::from_millis(10)));
    assert_eq!(
        manager.restart_delay(key),
        Ok(Some(Duration::from_millis(10)))
    );
    for _ in 0..3 {
        assert!(manager.restart_process(key).is_ok());
    }
    for _ in 0..50 {
        let delay = manager.restart_delay(key).unwrap().unwrap();
        assert!(delay >= Duration::from_millis(10));
        assert!(delay <= Duration::from_millis(80));
    }
    manager.set_max_backoff(Duration::from_millis(4));
    assert_eq!(
        manager.restart_delay(key),
        Ok(Some(Duration::from_millis(4)))
    );
}

#[test]
fn descriptions_name_environment_executable_and_arguments() {
    let mut manager = ProcessManager::new();
    let key = start(&mut manager, 1).key;
    assert_eq!(manager.describe(key), Ok(" A=1 B=2 tool-1  -x".to_string()));
}

#[test]
fn nothing_is_under_the_default_key() {
    let mut manager = ProcessManager::new();
    let null = ProcessKey::default();
    assert_eq!(null, ProcessKey::default());
    for stdin in 0..20 {
        assert_ne!(start(&mut manager, stdin).key, null);
        assert!(!manager.manages(null));
        assert_eq!(manager.get_pid(null), Err(Error::NonExistantProcess));
        assert_eq!(manager.stop_process(null), Err(Error::NonExistantProcess));
    }
    assert_eq!(null.as_ffi(), 0x1_ffff_ffff);
}

#[test]
fn only_a_stop_stops_the_manager() {
    let mut manager = ProcessManager::new();
    let key = start(&mut manager, 1).key;
    manager.child_spawned(key, Some(10));
    manager.set_max_restarts(0);
    manager.set_liveness_interval(None);
    manager.clear_process_env(&key).unwrap();
    manager.child_exited(key, false, at(1));
    manager.stop_process(key).unwrap();
    assert!(!manager.is_stopped());
    manager.stop();
    assert!(manager.is_stopped());
    manager.set_max_restarts(1);
    assert!(manager.is_stopped());
}
