use opfs_vfs::lock::{FileHandle, HostLockOutcome, LockLevel};
use opfs_vfs::status::Status;

#[test]
fn fresh_handle_is_unlocked() {
    let h = FileHandle::new(7);
    assert_eq!(h.fd, 7);
    assert_eq!(h.level, LockLevel::NoLock);
    assert!(!h.check_reserved());
}

#[test]
fn lock_escalates_directly_to_target() {
    let mut h = FileHandle::new(1);
    let s = h.lock(LockLevel::Exclusive, HostLockOutcome::Granted);
    assert_eq!(s, Status::Okay);
    assert_eq!(h.level, LockLevel::Exclusive);
}

#[test]
fn lock_idempotent_without_host_effect() {
    let mut h = FileHandle::new(1);
    assert_eq!(h.lock(LockLevel::Reserved, HostLockOutcome::Granted), Status::Okay);
    // A request at or below the current level succeeds unchanged, whatever
    // the host would have answered.
    assert_eq!(h.lock(LockLevel::Shared, HostLockOutcome::Denied), Status::Okay);
    assert_eq!(h.level, LockLevel::Reserved);
    assert_eq!(h.lock(LockLevel::Reserved, HostLockOutcome::Denied), Status::Okay);
    assert_eq!(h.level, LockLevel::Reserved);
}

#[test]
fn denied_lock_reports_busy_and_keeps_level() {
    let mut h = FileHandle::new(1);
    let s = h.lock(LockLevel::Shared, HostLockOutcome::Denied);
    assert_eq!(s, Status::Busy);
    assert_eq!(h.level, LockLevel::NoLock);

    assert_eq!(h.lock(LockLevel::Shared, HostLockOutcome::Granted), Status::Okay);
    let s = h.lock(LockLevel::Exclusive, HostLockOutcome::Denied);
    assert_eq!(s, Status::Busy);
    assert_eq!(h.level, LockLevel::Shared);
}

#[test]
fn unlock_releases_down_to_target() {
    let mut h = FileHandle::new(1);
    assert_eq!(h.lock(LockLevel::Exclusive, HostLockOutcome::Granted), Status::Okay);
    assert_eq!(h.unlock(LockLevel::Shared, 0), Status::Okay);
    assert_eq!(h.level, LockLevel::Shared);
    // A release at or above the current level is a no-op success.
    assert_eq!(h.unlock(LockLevel::Exclusive, 0), Status::Okay);
    assert_eq!(h.level, LockLevel::Shared);
    assert_eq!(h.unlock(LockLevel::NoLock, 0), Status::Okay);
    assert_eq!(h.level, LockLevel::NoLock);
}

#[test]
fn unlock_host_fault_is_ioerr_and_keeps_level() {
    let mut h = FileHandle::new(1);
    assert_eq!(h.lock(LockLevel::Exclusive, HostLockOutcome::Granted), Status::Okay);
    assert_eq!(h.unlock(LockLevel::NoLock, 3), Status::IoErr);
    assert_eq!(h.level, LockLevel::Exclusive);
}

#[test]
fn check_reserved_threshold() {
    let mut h = FileHandle::new(1);
    assert!(!h.check_reserved());
    assert_eq!(h.lock(LockLevel::Shared, HostLockOutcome::Granted), Status::Okay);
    assert!(!h.check_reserved());
    assert_eq!(h.lock(LockLevel::Reserved, HostLockOutcome::Granted), Status::Okay);
    assert!(h.check_reserved());
    assert_eq!(h.lock(LockLevel::Exclusive, HostLockOutcome::Granted), Status::Okay);
    assert!(h.check_reserved());
}

#[test]
fn level_codes_round_trip() {
    let levels = [
        LockLevel::NoLock,
        LockLevel::Shared,
        LockLevel::Reserved,
        LockLevel::Pending,
        LockLevel::Exclusive,
    ];
    for (i, l) in levels.iter().enumerate() {
        assert_eq!(l.rank() as usize, i);
        assert_eq!(LockLevel::from_code(i as i32), Some(*l));
    }
    assert_eq!(LockLevel::from_code(5), None);
    assert_eq!(LockLevel::from_code(-1), None);
}

#[test]
fn level_stays_within_bounds_over_history() {
    // Lock monotonicity: after any sequence of calls the level is one of
    // the five defined strengths and each change followed the request.
    let mut h = FileHandle::new(1);
    let steps = [
        (true, LockLevel::Shared, HostLockOutcome::Granted),
        (true, LockLevel::Exclusive, HostLockOutcome::Denied),
        (true, LockLevel::Reserved, HostLockOutcome::Granted),
        (false, LockLevel::Shared, HostLockOutcome::Granted),
        (true, LockLevel::Exclusive, HostLockOutcome::Granted),
        (false, LockLevel::NoLock, HostLockOutcome::Granted),
    ];
    for (is_lock, target, host) in steps {
        let before = h.level;
        let s = if is_lock {
            h.lock(target, host)
        } else {
            h.unlock(target, 0)
        };
        assert!(h.level.rank() <= 4);
        if h.level != before {
            assert_eq!(s, Status::Okay);
            if is_lock {
                assert!(before.rank() < h.level.rank());
            } else {
                assert!(h.level.rank() < before.rank());
            }
        }
    }
}
