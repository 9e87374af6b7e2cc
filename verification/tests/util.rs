use launch_pad::util::{mark_as_not_cloexec, signal_target, FD_CLOEXEC};

#[test]
fn marking_clears_one_flag() {
    assert_eq!(mark_as_not_cloexec(FD_CLOEXEC), 0);
    assert_eq!(mark_as_not_cloexec(0), 0);
    assert_eq!(mark_as_not_cloexec(0b1011), 0b1010);
    assert_eq!(mark_as_not_cloexec(u32::MAX), u32::MAX - 1);
    assert_eq!(mark_as_not_cloexec(mark_as_not_cloexec(7)), 6);
    assert_eq!(
        FD_CLOEXEC,
        rustix::io::FdFlags::CLOEXEC.bits()
    );
}

#[test]
fn only_positive_ids_are_signalled() {
    assert_eq!(signal_target(0), None);
    assert_eq!(signal_target(1), Some(1));
    assert_eq!(signal_target(i32::MAX as u32), Some(i32::MAX));
}
