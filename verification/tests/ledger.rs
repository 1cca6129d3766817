use staking_factory::error::MyError;
use staking_factory::history::{History, Snapshot};

#[test]
fn an_older_snapshot_is_refused() {
    let mut h = History::new();
    assert_eq!(h.record_snapshot(100, 500), Ok(()));
    assert_eq!(h.record_snapshot(90, 400), Err(MyError::NonMonotonicTimestamp));
    assert_eq!(h.record_snapshot(90, 500), Err(MyError::NonMonotonicTimestamp));
    assert_eq!(h.len(), 1);
    assert_eq!(h.at_epoch(150), Ok(500));
}

#[test]
fn a_query_before_any_snapshot_finds_no_history() {
    let mut h = History::new();
    assert_eq!(h.len(), 0);
    assert_eq!(h.at_epoch(50), Err(MyError::NoHistory));
    assert_eq!(h.record_snapshot(100, 500), Ok(()));
    assert_eq!(h.at_epoch(50), Err(MyError::NoHistory));
    assert_eq!(h.at_epoch(99), Err(MyError::NoHistory));
    assert_eq!(h.at_epoch(i64::MIN), Err(MyError::NoHistory));
}

#[test]
fn a_query_after_a_snapshot_finds_its_total() {
    let mut h = History::new();
    assert_eq!(h.record_snapshot(100, 500), Ok(()));
    assert_eq!(h.at_epoch(150), Ok(500));
    assert_eq!(h.at_epoch(100), Ok(500));
    assert_eq!(h.at_epoch(i64::MAX), Ok(500));
}

#[test]
fn the_latest_timestamp_may_be_repeated_with_the_same_total_only() {
    let mut h = History::new();
    assert_eq!(h.record_snapshot(100, 500), Ok(()));
    assert_eq!(h.record_snapshot(100, 500), Ok(()));
    assert_eq!(h.len(), 1);
    assert_eq!(h.record_snapshot(100, 501), Err(MyError::ConflictingSnapshot));
    assert_eq!(h.len(), 1);
    assert_eq!(h.at_epoch(100), Ok(500));
    assert_eq!(h.record_snapshot(101, 501), Ok(()));
    assert_eq!(h.len(), 2);
    assert_eq!(h.record_snapshot(100, 500), Err(MyError::NonMonotonicTimestamp));
    assert_eq!(h.at_epoch(100), Ok(500));
    assert_eq!(h.at_epoch(101), Ok(501));
}

#[test]
fn lookup_finds_the_latest_snapshot_not_after_the_query() {
    let mut h = History::new();
    for i in 0..200i64 {
        assert_eq!(h.record_snapshot(i * 10, (i as u64) + 1), Ok(()));
    }
    assert_eq!(h.len(), 200);
    assert_eq!(h.at_epoch(-1), Err(MyError::NoHistory));
    for ts in 0..2000i64 {
        assert_eq!(h.at_epoch(ts), Ok((ts / 10) as u64 + 1));
    }
    assert_eq!(h.at_epoch(5000), Ok(200));
}

#[test]
fn snapshots_compare_by_fields() {
    let a = Snapshot { epoch: 1, total: 2 };
    assert_eq!(a, Snapshot { epoch: 1, total: 2 });
    assert_ne!(a, Snapshot { epoch: 1, total: 3 });
}
