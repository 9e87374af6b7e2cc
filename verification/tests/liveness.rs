use launch_pad::liveness::{parse_status, stuck_zombie_leader};

/// The pathological state: leader gone, siblings still running.
#[test]
fn detects_zombie_leader_with_live_threads() {
    let status = "Name:\tcosmic-comp\nState:\tZ (zombie)\nTgid:\t3237\nPid:\t3237\nThreads:\t34\n";
    assert_eq!(parse_status(status), Some(34));
}

/// An ordinary exit: the leader zombies only once it is alone, and `waitpid` reports it, so
/// this must not fire.
#[test]
fn ignores_ordinary_zombie() {
    let status = "Name:\tsh\nState:\tZ (zombie)\nThreads:\t1\n";
    assert_eq!(parse_status(status), None);
}

#[test]
fn ignores_healthy_process() {
    let status = "Name:\tcosmic-comp\nState:\tS (sleeping)\nThreads:\t31\n";
    assert_eq!(parse_status(status), None);
}

/// A multi-threaded process being traced or stopped is not dead.
#[test]
fn ignores_other_states() {
    for state in ["R (running)", "D (disk sleep)", "t (tracing stop)", "T (stopped)"] {
        let status = format!("State:\t{state}\nThreads:\t8\n");
        assert_eq!(parse_status(&status), None, "state {state} must not trip");
    }
}

/// Truncated or unexpected content must never panic or false-positive.
#[test]
fn tolerates_malformed_input() {
    assert_eq!(parse_status(""), None);
    assert_eq!(parse_status("State:\tZ (zombie)\n"), None, "no Threads line");
    assert_eq!(parse_status("Threads:\t9\n"), None, "no State line");
    assert_eq!(parse_status("State:\tZ (zombie)\nThreads:\tbogus\n"), None);
}

#[test]
fn the_last_field_counts() {
    assert_eq!(
        parse_status("State: S\nThreads: 4\nState: Z\nThreads: 7\n"),
        Some(7)
    );
    assert_eq!(parse_status("State: Z\nThreads: 4\nState: S\n"), None);
    assert_eq!(parse_status("State: Z\nThreads: 4\nThreads: x\n"), None);
}

#[test]
fn line_endings_and_white_space() {
    assert_eq!(parse_status("State:Z\r\nThreads:\t 12 \r\n"), Some(12));
    assert_eq!(parse_status("Threads:\u{a0}+5\nState:\u{2003}Zz"), Some(5));
    assert_eq!(parse_status("State: Z\nThreads: 3\r"), Some(3));
    assert_eq!(parse_status("State:\nThreads: 3\n"), None);
    assert_eq!(parse_status(" State: Z\nThreads: 3\n"), None);
    assert_eq!(parse_status("State: Z\n\n\nThreads: 2"), Some(2));
}

#[test]
fn thread_counts_are_decimal_numbers() {
    let count = |text: &str| parse_status(&format!("State: Z\nThreads: {text}\n"));
    assert_eq!(count("18446744073709551615"), Some(u64::MAX));
    assert_eq!(count("18446744073709551616"), None);
    assert_eq!(count("0000000000000000000000002"), Some(2));
    assert_eq!(count("-2"), None);
    assert_eq!(count("+"), None);
    assert_eq!(count("++2"), None);
    assert_eq!(count("2 3"), None);
    assert_eq!(count("0x2"), None);
    assert_eq!(count("\u{0662}"), None);
    assert_eq!(count(""), None);
}

#[test]
fn status_that_cannot_be_read_is_no_alarm() {
    assert_eq!(stuck_zombie_leader(None), None);
    assert_eq!(stuck_zombie_leader(Some("State: Z\nThreads: 2\n")), Some(2));
}
