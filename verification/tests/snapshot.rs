use malstrom::snapshot::{commits_path, snapshot_path, CommitLog, OpenCommitsError, StoredCommits};

/// check we return None if there has not been a committed version yet
#[test]
fn commit_log_none_if_no_committed() {
    let log = CommitLog::open(StoredCommits::NotFound).unwrap();
    assert!(log.last_committed().is_none());
}

/// Check we return the last committed version
#[test]
fn commit_log_last_committed() {
    let mut log = CommitLog::new();
    log.commit(42).unwrap();
    assert_eq!(log.last_committed(), Some(42));
}

/// Check we return the last committed version, not the highest version
#[test]
fn commit_log_last_committed_not_highest() {
    let mut log = CommitLog::new();
    log.commit(42).unwrap();
    log.commit(3).unwrap();
    assert_eq!(log.last_committed(), Some(3));
    assert!(log.is_committed(42));
    assert!(!log.needs_clean_directory(42));
    assert!(log.needs_clean_directory(7));
}

#[test]
fn commit_log_survives_reopen() {
    let mut log = CommitLog::new();
    log.commit(5).unwrap();
    let bytes = log.commit(9).unwrap();
    let reopened = CommitLog::open(StoredCommits::Found(bytes)).unwrap();
    assert_eq!(reopened.last_committed(), Some(9));
    assert!(reopened.is_committed(5));
}

#[test]
fn corrupt_commit_file_is_an_error() {
    match CommitLog::open(StoredCommits::Found(vec![0xc1])) {
        Err(OpenCommitsError::Decoding(_)) => {}
        _ => panic!("expected a decoding error"),
    }
    match CommitLog::open(StoredCommits::Failed("boom".to_string())) {
        Err(OpenCommitsError::ObjectStore(m)) => assert_eq!(m, "boom"),
        _ => panic!("expected a store error"),
    }
}

#[test]
fn paths() {
    assert_eq!(snapshot_path(3, 17), vec!["snapshots", "worker3", "version17"]);
    assert_eq!(commits_path(), "commits");
}

#[test]
fn commit_writes_a_msgpack_array_of_shortest_uints() {
    let mut log = CommitLog::new();
    assert_eq!(log.commit(42).unwrap(), vec![0x91, 42]);
    assert_eq!(log.commit(200).unwrap(), vec![0x92, 42, 0xcc, 200]);
    assert_eq!(log.commit(300).unwrap(), vec![0x93, 42, 0xcc, 200, 0xcd, 0x01, 0x2c]);
    assert_eq!(
        log.commit(70_000).unwrap(),
        vec![0x94, 42, 0xcc, 200, 0xcd, 0x01, 0x2c, 0xce, 0x00, 0x01, 0x11, 0x70]
    );
    let mut big = CommitLog::new();
    assert_eq!(big.commit(1 << 40).unwrap(), vec![0x91, 0xcf, 0, 0, 1, 0, 0, 0, 0, 0]);
}
