use launch_pad::message::ProcessMessage;
use launch_pad::process::{Process, ProcessCallbacks};
use launch_pad::Duration;

fn pair(name: &str, value: &str) -> (String, String) {
    (name.to_string(), value.to_string())
}

#[test]
fn new_process_is_blank() {
    let process = Process::new(4);
    assert_eq!(process.executable, "");
    assert!(process.args.is_empty());
    assert!(process.env.is_empty());
    assert_eq!(process.callbacks, ProcessCallbacks::default());
    assert_eq!(process.stdin_tx, 4);
    assert_eq!(process.stdin_rx, Some(4));
    assert_eq!(process.cancel_timeout, Some(Duration::from_secs(1)));
}

#[test]
fn builders_set_what_they_name() {
    let process = Process::new(0)
        .with_executable("sleep".to_string())
        .with_args(vec!["3".to_string()])
        .with_env(vec![pair("A", "1")])
        .with_cancel_timeout(None)
        .with_on_stdout(1)
        .with_on_stderr(2)
        .with_on_start(3)
        .with_on_exit(4)
        .with_fds(5);
    assert_eq!(process.executable, "sleep");
    assert_eq!(process.args, vec!["3".to_string()]);
    assert_eq!(process.env, vec![pair("A", "1")]);
    assert_eq!(process.cancel_timeout, None);
    assert_eq!(
        process.callbacks,
        ProcessCallbacks {
            on_stdout: Some(1),
            on_stderr: Some(2),
            on_start: Some(3),
            on_exit: Some(4),
            fds: Some(5),
        }
    );
    let again = process.with_on_exit(9).with_args(vec![]);
    assert_eq!(again.callbacks.on_exit, Some(9));
    assert!(again.args.is_empty());
}

#[test]
fn texts_quote_what_holds_a_space() {
    let process = Process::new(0)
        .with_executable("my tool".to_string())
        .with_args(vec!["-v".to_string(), "two words".to_string(), "".to_string()])
        .with_env(vec![pair("A", "1"), pair("B C", "d"), pair("E", "f g")]);
    assert_eq!(process.exe_text(), "\"my tool\"");
    assert_eq!(process.args_text(), " -v \"two words\" ");
    assert_eq!(process.env_text(), " A=1 B C=d E=\"f g\"");
    let blank = Process::new(0);
    assert_eq!(blank.exe_text(), "");
    assert_eq!(blank.args_text(), "");
    assert_eq!(blank.env_text(), "");
}

#[test]
fn updates_bind_names_anew() {
    let mut process = Process::new(0).with_env(vec![
        pair("A", "1"),
        pair("B", "2"),
        pair("A", "3"),
        pair("C", "4"),
    ]);
    process.update_env(vec![pair("A", "9"), pair("D", "5"), pair("D", "6")]);
    let expected = vec![
        pair("B", "2"),
        pair("C", "4"),
        pair("A", "9"),
        pair("D", "5"),
        pair("D", "6"),
    ];
    assert_eq!(process.env, expected);
    process.update_env(vec![pair("A", "9"), pair("D", "5"), pair("D", "6")]);
    assert_eq!(process.env, expected);
    process.update_env(vec![]);
    assert_eq!(process.env, expected);
}

#[test]
fn command_copies_the_process() {
    let process = Process::new(0)
        .with_executable("env".to_string())
        .with_args(vec!["-0".to_string()])
        .with_env(vec![pair("A", "1")]);
    let command = process.command();
    assert_eq!(command.executable, "env");
    assert_eq!(command.args, vec!["-0".to_string()]);
    assert_eq!(command.env, vec![pair("A", "1")]);
}

#[test]
fn messages_compare_by_what_they_say() {
    let exited = ProcessMessage::Exited {
        code: Some(1),
        restarting: true,
    };
    assert_eq!(exited.clone(), exited);
    assert_ne!(
        ProcessMessage::Stdout("a".to_string()),
        ProcessMessage::Stderr("a".to_string())
    );
    assert_ne!(ProcessMessage::Started, exited);
}
