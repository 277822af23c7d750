use mcp_hub_lib::error::AppError;
use mcp_hub_lib::session::writer::{WriterState, FSYNC_BATCH_SIZE};

#[test]
fn syncs_every_batch() {
    let mut w = WriterState::new().with_fsync_batch(3);
    let mut syncs = Vec::new();
    for _ in 0..7 {
        assert!(w.check_append().is_ok());
        let sync = w.record_written();
        if sync {
            w.synced();
        }
        syncs.push(sync);
    }
    assert_eq!(syncs, vec![false, false, true, false, false, true, false]);
    assert_eq!(w.unsynced_count(), 1);
}

#[test]
fn zero_batch_means_every_record() {
    let mut w = WriterState::new().with_fsync_batch(0);
    assert!(w.record_written());
    assert_eq!(FSYNC_BATCH_SIZE, 16);
}

#[test]
fn appending_after_finalize_is_refused() {
    let mut w = WriterState::new();
    w.finalized();
    match w.check_append() {
        Err(AppError::Internal(m)) => assert_eq!(m, "session writer used after finalize()"),
        _ => panic!("expected an error"),
    }
}

#[test]
fn syncing_when_asked_keeps_at_most_a_batch_unsynced() {
    let mut w = WriterState::new().with_fsync_batch(3);
    let mut most = 0;
    for _ in 0..10 {
        if w.record_written() {
            most = most.max(w.unsynced_count());
            w.synced();
        } else {
            most = most.max(w.unsynced_count());
            assert!(w.unsynced_count() < 3);
        }
    }
    assert_eq!(most, 3);
    assert_eq!(w.unsynced_count(), 1);
}
