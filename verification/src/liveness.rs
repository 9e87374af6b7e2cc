//! Detection of process deaths that `waitpid` cannot report.
//!
//! Supervising a child by awaiting its exit status covers every *ordinary* death, but there is
//! one state it cannot see. When a task takes a fatal fault the kernel runs `do_exit()` on that
//! task alone, not `do_group_exit()`, so if the victim happens to be the thread-group leader,
//! the leader becomes a zombie while its sibling threads keep running.
//!
//! Such a leader can never be reaped: `delay_group_leader()` holds it until the last thread in
//! the group exits. `waitpid` therefore blocks forever, and a supervisor that relies on it alone
//! never learns that the process is effectively dead. `waitid` with `WNOWAIT` and a polled pidfd
//! key off reapability as well, so neither sees it. `/proc/<pid>/status` does.

use crate::text::{
    begins_with, characters, decimal, drop_white_space, line_end, lines, parse_decimal,
    skip_white_space, trim, trim_start, without_cr,
};
use vstd::prelude::*;

verus! {

/// What follows `name` on the last of the `lines` that begin with it.
pub open spec fn field(lines: Seq<Seq<char>>, name: Seq<char>) -> Option<Seq<char>>
    decreases lines.len(),
{
    if lines.len() == 0 {
        None
    } else if name.is_prefix_of(lines.last()) {
        Some(lines.last().skip(name.len() as int))
    } else {
        field(lines.drop_last(), name)
    }
}

/// Whether the value of a `State:` field says that the process is a zombie.
pub open spec fn is_zombie(state: Option<Seq<char>>) -> bool {
    state is Some && trim_start(state->0).len() > 0 && trim_start(state->0)[0] == 'Z'
}

/// The number of threads that the value of a `Threads:` field gives, zero if it gives none.
pub open spec fn thread_count(threads: Option<Seq<char>>) -> u64 {
    match threads {
        Some(count) => match decimal(trim(count)) {
            Some(n) => n,
            None => 0,
        },
        None => 0,
    }
}

/// The thread count in the text of a `/proc/<pid>/status` file whose process is a zombie with
/// more than one thread, and nothing for any other text.
pub open spec fn stuck_threads(status: Seq<char>) -> Option<u64> {
    let threads = thread_count(field(lines(status), "Threads:"@));
    if is_zombie(field(lines(status), "State:"@)) && threads > 1 {
        Some(threads)
    } else {
        None
    }
}

/// Reports whether a process is dead in a way `waitpid` will never report.
///
/// `status` is the text of the process's `/proc/<pid>/status`, or `None` where it could not be
/// read, or where there is no procfs to consult.
///
/// Returns the process's thread count when its group leader has exited while its siblings are
/// still running, and `None` otherwise.
///
/// A healthy process and an *ordinary* exit both yield `None`: on a normal teardown every
/// sibling is already gone by the time the leader zombies, so `Threads:` is 1 and `waitpid`
/// returns immediately. Requiring more than one thread is what keeps this from firing during
/// routine shutdown.
pub fn stuck_zombie_leader(status: Option<&str>) -> (threads: Option<u64>)
    ensures
        threads == (match status {
            Some(text) => stuck_threads(text@),
            None => None,
        }),
{
    match status {
        Some(text) => parse_status(text),
        None => None,
    }
}

/// Reads the state of a thread group from the text of its leader's `/proc/<pid>/status`.
pub fn parse_status(status: &str) -> (stuck: Option<u64>)
    ensures
        stuck == stuck_threads(status@),
{
    let text = characters(status);
    let state_name = characters("State:");
    let threads_name = characters("Threads:");
    let mut leader_is_zombie = false;
    let mut threads: u64 = 0;
    let mut pos: usize = 0;
    let ghost mut done: Seq<Seq<char>> = Seq::empty();
    assert(text@.skip(0) =~= text@);
    assert(done + lines(text@) =~= lines(text@));
    while pos < text.len()
        invariant
            text@ == status@,
            state_name@ == "State:"@,
            threads_name@ == "Threads:"@,
            pos <= text@.len(),
            done + lines(text@.skip(pos as int)) == lines(text@),
            leader_is_zombie == is_zombie(field(done, "State:"@)),
            threads == thread_count(field(done, "Threads:"@)),
        decreases text@.len() - pos,
    {
        let feed = line_end(&text, pos);
        let end: usize = if feed < text.len() && pos < feed && text[feed - 1] == '\r' {
            feed - 1
        } else {
            feed
        };
        let next: usize = if feed < text.len() {
            feed + 1
        } else {
            feed
        };
        let ghost rest = text@.skip(pos as int);
        let ghost line = text@.subrange(pos as int, end as int);
        let ghost before = done;
        proof {
            reveal_strlit("State:");
            reveal_strlit("Threads:");
            let n = feed - pos;
            assert(rest.take(n) =~= text@.subrange(pos as int, feed as int));
            if feed < text@.len() {
                assert(rest.skip(n + 1) =~= text@.skip(next as int));
                assert(without_cr(rest.take(n)) =~= line);
            } else {
                assert(rest =~= line);
                assert(text@.skip(next as int) =~= Seq::<char>::empty());
            }
            assert(lines(rest) =~= seq![line] + lines(text@.skip(next as int)));
            done = before.push(line);
            assert(done + lines(text@.skip(next as int)) =~= before + lines(rest));
            assert(done.drop_last() =~= before);
        }
        if begins_with(&text, pos, end, &state_name) {
            let value = pos + state_name.len();
            assert(line.skip("State:"@.len() as int) =~= text@.subrange(value as int, end as int));
            assert(line[0] == 'S') by {
                assert(line.subrange(0, 6)[0] == "State:"@[0]);
            }
            assert(!"Threads:"@.is_prefix_of(line)) by {
                if "Threads:"@.is_prefix_of(line) {
                    assert(line.subrange(0, 8)[0] == "Threads:"@[0]);
                }
            }
            let start = skip_white_space(&text, value, end);
            leader_is_zombie = start < end && text[start] == 'Z';
        } else if begins_with(&text, pos, end, &threads_name) {
            let value = pos + threads_name.len();
            assert(line.skip("Threads:"@.len() as int) =~= text@.subrange(
                value as int,
                end as int,
            ));
            let start = skip_white_space(&text, value, end);
            let stop = drop_white_space(&text, start, end);
            threads = parse_decimal(&text, start, stop).unwrap_or(0);
        }
        pos = next;
    }
    assert(text@.skip(pos as int) =~= Seq::<char>::empty());
    assert(done =~= lines(text@));
    if leader_is_zombie && threads > 1 {
        Some(threads)
    } else {
        None
    }
}

/// Only a zombie with live siblings is reported: not a healthy process, whatever the number of
/// its threads, not one whose last thread is gone, and not one whose status lacks a field.
pub proof fn lemma_only_zombies_with_siblings_are_stuck(status: Seq<char>)
    ensures
        stuck_threads(status) matches Some(threads) ==> threads > 1,
        !is_zombie(field(lines(status), "State:"@)) ==> stuck_threads(status) is None,
        thread_count(field(lines(status), "Threads:"@)) <= 1 ==> stuck_threads(status) is None,
        field(lines(status), "State:"@) is None ==> stuck_threads(status) is None,
        field(lines(status), "Threads:"@) is None ==> stuck_threads(status) is None,
{
}

/// A later line with a name takes the place of an earlier one, and lines without it do not count.
pub proof fn lemma_the_last_line_counts(lines: Seq<Seq<char>>, name: Seq<char>, line: Seq<char>)
    ensures
        field(Seq::empty(), name) is None,
        field(lines.push(name + line), name) == Some(line),
        !name.is_prefix_of(line) ==> field(lines.push(line), name) == field(lines, name),
{
    let named = name + line;
    assert(lines.push(named).drop_last() =~= lines);
    assert(lines.push(line).drop_last() =~= lines);
    assert(named.subrange(0, name.len() as int) =~= name);
    assert(named.skip(name.len() as int) =~= line);
}

/// A process is reported, with its number of threads, whatever that is, if the state of its leader
/// begins with a `Z` and it has more than one thread, and it is not reported otherwise. A number
/// that cannot be read counts as none.
pub proof fn lemma_what_is_reported(status: Seq<char>, state: Seq<char>, threads: Seq<char>)
    requires
        field(lines(status), "State:"@) == Some(state),
        field(lines(status), "Threads:"@) == Some(threads),
    ensures
        ({
            let zombie = trim_start(state).len() > 0 && trim_start(state)[0] == 'Z';
            match decimal(trim(threads)) {
                Some(n) => stuck_threads(status) == (if zombie && n > 1 {
                    Some(n)
                } else {
                    None
                }),
                None => stuck_threads(status) is None,
            }
        }),
{
}

} // verus!
