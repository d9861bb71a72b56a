use opfs_vfs::lock::LockLevel;
use opfs_vfs::memvfs::MemVfs;
use opfs_vfs::status::Status;

fn path(name: &str) -> Vec<u8> {
    name.as_bytes().to_vec()
}

#[test]
fn basic_lifecycle() {
    // Open a fresh path with create set, write sixteen bytes, read them
    // back, close.
    let mut v = MemVfs::new();
    let p = path("/db/main");
    let (fd, s) = v.open(&p, true);
    let fd = fd.unwrap();
    assert_eq!(s, Status::Okay);

    let data: Vec<u8> = (0u8..16).collect();
    assert_eq!(v.write(fd, 0, &data), Status::Okay);

    let (bytes, s) = v.read(fd, 0, 16);
    assert_eq!(s, Status::Okay);
    assert_eq!(bytes, data);

    assert_eq!(v.close(fd), Status::Okay);
}

#[test]
fn contested_exclusive_lock() {
    // Handle a takes the exclusive level; handle b of the same file asks
    // for shared and is told busy, its level untouched.
    let mut v = MemVfs::new();
    let p = path("/db/main");
    let (a, _) = v.open(&p, true);
    let a = a.unwrap();
    let (b, s) = v.open(&p, false);
    let b = b.unwrap();
    assert_eq!(s, Status::Okay);

    assert_eq!(v.lock(a, LockLevel::Exclusive), Status::Okay);
    assert_eq!(v.lock(b, LockLevel::Shared), Status::Busy);
    assert_eq!(v.handles[b].level, LockLevel::NoLock);
    assert_eq!(v.check_reserved(b), (false, Status::Okay));

    // Once a releases everything, b is free to escalate.
    assert_eq!(v.unlock(a, LockLevel::NoLock), Status::Okay);
    assert_eq!(v.lock(b, LockLevel::Shared), Status::Okay);
    assert_eq!(v.handles[b].level, LockLevel::Shared);
}

#[test]
fn shared_locks_coexist_but_block_exclusive() {
    let mut v = MemVfs::new();
    let p = path("/db/main");
    let (a, _) = v.open(&p, true);
    let a = a.unwrap();
    let (b, _) = v.open(&p, false);
    let b = b.unwrap();

    assert_eq!(v.lock(a, LockLevel::Shared), Status::Okay);
    assert_eq!(v.lock(b, LockLevel::Shared), Status::Okay);
    assert_eq!(v.lock(b, LockLevel::Exclusive), Status::Busy);
    assert_eq!(v.handles[b].level, LockLevel::Shared);
}

#[test]
fn lock_is_idempotent_under_contention() {
    let mut v = MemVfs::new();
    let p = path("/db/main");
    let (a, _) = v.open(&p, true);
    let a = a.unwrap();
    let (b, _) = v.open(&p, false);
    let b = b.unwrap();

    assert_eq!(v.lock(a, LockLevel::Shared), Status::Okay);
    assert_eq!(v.lock(b, LockLevel::Shared), Status::Okay);
    // a already holds shared; asking again succeeds with no coordination,
    // even though an escalation would conflict.
    assert_eq!(v.lock(a, LockLevel::Shared), Status::Okay);
    assert_eq!(v.handles[a].level, LockLevel::Shared);
}

#[test]
fn short_read_is_an_io_fault() {
    let mut v = MemVfs::new();
    let p = path("/db/main");
    let (fd, _) = v.open(&p, true);
    let fd = fd.unwrap();
    assert_eq!(v.write(fd, 0, &vec![1u8, 2, 3, 4]), Status::Okay);

    let (bytes, s) = v.read(fd, 2, 10);
    assert_eq!(s, Status::IoErr);
    assert_eq!(bytes.len(), 0);

    let (bytes, s) = v.read(fd, 0, 4);
    assert_eq!(s, Status::Okay);
    assert_eq!(bytes, vec![1u8, 2, 3, 4]);
}

#[test]
fn write_gap_is_zero_filled() {
    let mut v = MemVfs::new();
    let p = path("/db/main");
    let (fd, _) = v.open(&p, true);
    let fd = fd.unwrap();
    assert_eq!(v.write(fd, 4, &vec![7u8, 8]), Status::Okay);
    assert_eq!(v.file_size(fd), (6, Status::Okay));
    let (bytes, s) = v.read(fd, 0, 6);
    assert_eq!(s, Status::Okay);
    assert_eq!(bytes, vec![0u8, 0, 0, 0, 7, 8]);
}

#[test]
fn truncate_shrinks_and_extends() {
    let mut v = MemVfs::new();
    let p = path("/db/main");
    let (fd, _) = v.open(&p, true);
    let fd = fd.unwrap();
    assert_eq!(v.write(fd, 0, &vec![1u8, 2, 3, 4]), Status::Okay);

    assert_eq!(v.truncate(fd, 2), Status::Okay);
    assert_eq!(v.file_size(fd), (2, Status::Okay));
    let (bytes, _) = v.read(fd, 0, 2);
    assert_eq!(bytes, vec![1u8, 2]);

    assert_eq!(v.truncate(fd, 5), Status::Okay);
    let (bytes, s) = v.read(fd, 0, 5);
    assert_eq!(s, Status::Okay);
    assert_eq!(bytes, vec![1u8, 2, 0, 0, 0]);
}

#[test]
fn sync_and_file_size_follow_handle_liveness() {
    let mut v = MemVfs::new();
    let p = path("/db/main");
    let (fd, _) = v.open(&p, true);
    let fd = fd.unwrap();
    assert_eq!(v.sync(fd), Status::Okay);
    assert_eq!(v.file_size(fd), (0, Status::Okay));
    assert_eq!(v.close(fd), Status::Okay);
    assert_eq!(v.sync(fd), Status::IoErr);
    assert_eq!(v.file_size(fd), (0, Status::IoErr));
}

#[test]
fn delete_and_access() {
    let mut v = MemVfs::new();
    let p = path("/db/journal");
    assert!(!v.access(&p));
    let (fd, _) = v.open(&p, true);
    let fd = fd.unwrap();
    assert_eq!(v.close(fd), Status::Okay);
    assert!(v.access(&p));
    assert_eq!(v.delete(&p), Status::Okay);
    assert!(!v.access(&p));
    assert_eq!(v.delete(&p), Status::IoErr);
}

#[test]
fn open_without_create_needs_an_existing_file() {
    let mut v = MemVfs::new();
    let p = path("/db/missing");
    let (fd, s) = v.open(&p, false);
    assert!(fd.is_none());
    assert_eq!(s, Status::IoErr);
}

#[test]
fn operations_on_dead_handles_are_io_faults() {
    let mut v = MemVfs::new();
    let p = path("/db/main");
    let (fd, _) = v.open(&p, true);
    let fd = fd.unwrap();
    assert_eq!(v.close(fd), Status::Okay);
    assert_eq!(v.close(fd), Status::IoErr);
    assert_eq!(v.write(fd, 0, &vec![1u8]), Status::IoErr);
    assert_eq!(v.lock(fd, LockLevel::Shared), Status::IoErr);
    assert_eq!(v.unlock(99, LockLevel::NoLock), Status::IoErr);
    let (bytes, s) = v.read(99, 0, 1);
    assert_eq!(s, Status::IoErr);
    assert_eq!(bytes.len(), 0);
}

#[test]
fn unlock_drops_straight_to_target() {
    let mut v = MemVfs::new();
    let p = path("/db/main");
    let (fd, _) = v.open(&p, true);
    let fd = fd.unwrap();
    assert_eq!(v.lock(fd, LockLevel::Exclusive), Status::Okay);
    assert_eq!(v.check_reserved(fd), (true, Status::Okay));
    assert_eq!(v.unlock(fd, LockLevel::Shared), Status::Okay);
    assert_eq!(v.handles[fd].level, LockLevel::Shared);
    // A release at or above the current level is a no-op success.
    assert_eq!(v.unlock(fd, LockLevel::Exclusive), Status::Okay);
    assert_eq!(v.handles[fd].level, LockLevel::Shared);
}

#[test]
fn distinct_files_do_not_contend() {
    let mut v = MemVfs::new();
    let (a, _) = v.open(&path("/db/one"), true);
    let a = a.unwrap();
    let (b, _) = v.open(&path("/db/two"), true);
    let b = b.unwrap();
    assert_eq!(v.lock(a, LockLevel::Exclusive), Status::Okay);
    assert_eq!(v.lock(b, LockLevel::Exclusive), Status::Okay);
}
