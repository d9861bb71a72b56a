use opfs_vfs::bridge;
use opfs_vfs::lock::LockLevel;
use opfs_vfs::status::{status_from_rc, Status, STATUS_BUSY, STATUS_IOERR, STATUS_OK};
use opfs_vfs::time::{julian_millis, JULIAN_EPOCH_OFFSET_MILLIS, MILLIS_PER_DAY};
use opfs_vfs::vfs::{Registry, VfsDescriptor, MAX_PATHNAME, VFS_VERSION};

#[test]
fn status_codes_match_engine_values() {
    assert_eq!(Status::Okay.code(), STATUS_OK);
    assert_eq!(Status::Busy.code(), STATUS_BUSY);
    assert_eq!(Status::IoErr.code(), STATUS_IOERR);
    assert_eq!(STATUS_OK, 0);
    assert_eq!(STATUS_BUSY, 5);
    assert_eq!(STATUS_IOERR, 10);
    assert!(Status::Okay.is_okay());
    assert!(!Status::Busy.is_okay());
}

#[test]
fn host_return_codes_normalize_to_ioerr() {
    assert_eq!(status_from_rc(0), Status::Okay);
    assert_eq!(status_from_rc(1), Status::IoErr);
    assert_eq!(status_from_rc(-7), Status::IoErr);
}

#[test]
fn transfers_are_all_or_nothing() {
    assert_eq!(bridge::transfer_status(1024, 1024), Status::Okay);
    assert_eq!(bridge::transfer_status(1024, 100), Status::IoErr);
    assert_eq!(bridge::transfer_status(16, 0), Status::IoErr);
    assert_eq!(bridge::transfer_status(0, 0), Status::Okay);
    assert_eq!(bridge::transfer_status(4, -1), Status::IoErr);
}

#[test]
fn open_outcome_follows_descriptor_sign() {
    let (h, s) = bridge::open_outcome(3);
    let h = h.unwrap();
    assert_eq!(s, Status::Okay);
    assert_eq!(h.fd, 3);
    assert_eq!(h.level, LockLevel::NoLock);

    let (h, s) = bridge::open_outcome(-1);
    assert!(h.is_none());
    assert_eq!(s, Status::IoErr);

    let (h, s) = bridge::open_outcome(0);
    assert!(h.is_some());
    assert_eq!(s, Status::Okay);
}

#[test]
fn full_pathname_is_identity_when_it_fits() {
    let path = vec![b'/', b'd', b'b'];
    let out = bridge::full_pathname(&path, 4).unwrap();
    assert_eq!(out, path);
    let out = bridge::full_pathname(&path, 100).unwrap();
    assert_eq!(out, path);
}

#[test]
fn full_pathname_rejects_overlong_paths() {
    let path = vec![b'x'; 3];
    assert_eq!(bridge::full_pathname(&path, 3), Err(Status::IoErr));
    assert_eq!(bridge::full_pathname(&path, 0), Err(Status::IoErr));
    // A path of exactly the maximum length still needs room for the
    // terminator.
    let long = vec![b'p'; MAX_PATHNAME as usize];
    assert_eq!(bridge::full_pathname(&long, MAX_PATHNAME as usize), Err(Status::IoErr));
    assert_eq!(
        bridge::full_pathname(&long, MAX_PATHNAME as usize + 1).unwrap(),
        long
    );
}

#[test]
fn randomness_hands_out_entropy_prefix() {
    let entropy = vec![9u8, 8, 7, 6, 5, 4, 3, 2, 1, 0];
    let r = bridge::randomness(Some(&entropy), 4);
    assert_eq!(r, vec![9u8, 8, 7, 6]);
    let r = bridge::randomness(Some(&entropy), 10);
    assert_eq!(r, entropy);
}

#[test]
fn randomness_fails_closed() {
    // No entropy source, or a short one: zero bytes produced, never a
    // deterministic substitute.
    let r = bridge::randomness(None, 16);
    assert_eq!(r.len(), 0);
    let short = vec![1u8, 2];
    let r = bridge::randomness(Some(&short), 4);
    assert_eq!(r.len(), 0);
    let r = bridge::randomness(Some(&short), 2);
    assert_eq!(r, short);
}

#[test]
fn sleep_is_a_noop_reporting_zero() {
    assert_eq!(bridge::sleep(1_000_000), 0);
    assert_eq!(bridge::sleep(0), 0);
}

#[test]
fn fixed_reports() {
    assert_eq!(bridge::sector_size(), 4096);
    assert_eq!(bridge::device_characteristics(), 0);
    assert_eq!(bridge::get_last_error(), 0);
    assert_eq!(bridge::file_control(0), Status::Okay);
    assert_eq!(bridge::file_control(9999), Status::Okay);
}

#[test]
fn julian_time_anchors_on_epoch_offset() {
    assert_eq!(julian_millis(0), JULIAN_EPOCH_OFFSET_MILLIS);
    assert_eq!(julian_millis(0), 210_866_760_000_000);
    assert_eq!(julian_millis(MILLIS_PER_DAY), 210_866_846_400_000);
}

#[test]
fn julian_time_is_monotone() {
    // Time monotonicity: an advancing host clock never lowers the reading,
    // and a still clock never raises it.
    let readings = [0u64, 1, 1, 1_000, 1_700_000_000_000, 1_700_000_000_001];
    let mut last = julian_millis(readings[0]);
    for m in readings {
        let j = julian_millis(m);
        assert!(j >= last);
        last = j;
    }
    assert_eq!(julian_millis(42), julian_millis(42));
}

#[test]
fn descriptor_carries_fixed_constants() {
    let d = VfsDescriptor::build(64);
    assert_eq!(d.version, VFS_VERSION);
    assert_eq!(d.version, 1);
    assert_eq!(d.max_pathname, MAX_PATHNAME);
    assert_eq!(d.max_pathname, 1024);
    assert_eq!(d.handle_size, 64);
    assert_eq!(d.name, b"opfs".to_vec());
}

#[test]
fn registry_lifecycle() {
    let mut r = Registry::new();
    let d = VfsDescriptor::build(32);
    assert_eq!(r.register(d), Status::Okay);
    r.teardown();
}
