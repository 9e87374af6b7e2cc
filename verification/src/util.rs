//! File descriptor flags and process ids.

use rustix::io::FdFlags;
use rustix::process::Pid;
use vstd::prelude::*;

verus! {

/// The flag that closes a file descriptor on `exec`.
pub const FD_CLOEXEC: u32 = 1;

/// Calls `rustix::io::FdFlags::difference`, on the flags with the given bits. It is trusted to
/// clear the bits of `removed` in `flags` and to leave the others as they are.
#[verifier::external_body]
fn flags_difference(flags: u32, removed: u32) -> (rest: u32)
    ensures
        rest == flags & !removed,
{
    FdFlags::from_bits_retain(flags).difference(FdFlags::from_bits_retain(removed)).bits()
}

/// The flags to give a file descriptor that has `fd_flags`, so that a child process inherits it.
pub fn mark_as_not_cloexec(fd_flags: u32) -> (flags: u32)
    ensures
        flags == fd_flags & !FD_CLOEXEC,
{
    flags_difference(fd_flags, FD_CLOEXEC)
}

/// A marked descriptor is no longer closed on `exec`, keeps every other flag, and marking it
/// again changes nothing.
pub proof fn lemma_marking_clears_cloexec_alone(fd_flags: u32)
    ensures
        (fd_flags & !FD_CLOEXEC) & FD_CLOEXEC == 0,
        (fd_flags & !FD_CLOEXEC) | (fd_flags & FD_CLOEXEC) == fd_flags,
        (fd_flags & !FD_CLOEXEC) & !FD_CLOEXEC == fd_flags & !FD_CLOEXEC,
{
    assert((fd_flags & !1u32) & 1u32 == 0 && (fd_flags & !1u32) | (fd_flags & 1u32) == fd_flags && (
    fd_flags & !1u32) & !1u32 == fd_flags & !1u32) by (bit_vector);
}

/// The process to signal for the child with the id `id`, if the id is one.
pub open spec fn signalled(id: u32) -> Option<i32> {
    if id == 0 {
        None
    } else {
        Some(id as i32)
    }
}

/// Calls `rustix::process::Pid::from_raw`, which asserts that it is given no negative number,
/// and `rustix::process::Pid::as_raw_pid`. The first is trusted to reject zero alone, and the
/// second to give back what the first was given.
#[verifier::external_body]
fn pid_from_raw(raw: i32) -> (pid: Option<i32>)
    requires
        raw >= 0,
    ensures
        pid == (if raw == 0 {
            None
        } else {
            Some(raw)
        }),
{
    match Pid::from_raw(raw) {
        Some(pid) => Some(pid.as_raw_pid()),
        None => None,
    }
}

/// Finds the process to signal for the child with the id `id`.
pub fn signal_target(id: u32) -> (target: Option<i32>)
    requires
        id <= i32::MAX,
    ensures
        target == signalled(id),
{
    pid_from_raw(id as i32)
}

} // verus!
