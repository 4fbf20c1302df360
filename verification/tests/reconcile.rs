use mailsync::sync::checkpoint::{reconcile, FolderCheckpoint, LiveFolderState, SyncPlan};
use mailsync::sync::window::{full_sync_windows, next_window, Window, SYNC_BATCH_SIZE};

fn checkpoint(token: u32, next: u32) -> FolderCheckpoint {
    FolderCheckpoint { folder_id: 3, validity_token: token, next_watermark: next, total_count: 9, role: None }
}

#[test]
fn decision_table() {
    let live = LiveFolderState { validity_token: 7, next_watermark: 20, total_count: 12 };
    let full = |create_checkpoint, purge| SyncPlan::FullSync { create_checkpoint, purge, first: 1, last: 12 };
    assert_eq!(reconcile(None, &live), full(true, false));
    assert_eq!(reconcile(Some(&checkpoint(6, 20)), &live), full(false, true));
    assert_eq!(reconcile(Some(&checkpoint(0, 20)), &live), full(false, true));
    assert_eq!(reconcile(Some(&checkpoint(7, 17)), &live), SyncPlan::IncrementalSync { from: 17 });
    assert_eq!(reconcile(Some(&checkpoint(7, 20)), &live), SyncPlan::NoOp);
    assert_eq!(reconcile(Some(&checkpoint(7, 25)), &live), SyncPlan::NoOp);
    assert_eq!(reconcile(Some(&checkpoint(7, 0)), &live), full(false, false));
}

#[test]
fn unreadable_token_triggers_a_resync() {
    let live = LiveFolderState { validity_token: 0, next_watermark: 0, total_count: 2 };
    assert_eq!(
        reconcile(Some(&checkpoint(7, 20)), &live),
        SyncPlan::FullSync { create_checkpoint: false, purge: true, first: 1, last: 2 }
    );
}

#[test]
fn blank_and_advanced_checkpoints() {
    let blank = FolderCheckpoint::blank(11, None);
    assert_eq!(
        blank,
        FolderCheckpoint { folder_id: 11, validity_token: 0, next_watermark: 0, total_count: 0, role: None }
    );
    let live = LiveFolderState { validity_token: 7, next_watermark: 20, total_count: 12 };
    assert_eq!(
        blank.advanced(&live),
        FolderCheckpoint { folder_id: 11, validity_token: 7, next_watermark: 20, total_count: 12, role: None }
    );
}

#[test]
fn windows_at_the_edges() {
    assert_eq!(SYNC_BATCH_SIZE, 500);
    assert_eq!(next_window(0, 500), None);
    assert_eq!(next_window(5, 0), None);
    assert_eq!(next_window(1, 500), Some(Window { start: 1, end: 1 }));
    assert_eq!(next_window(500, 500), Some(Window { start: 1, end: 500 }));
    assert_eq!(next_window(501, 500), Some(Window { start: 2, end: 501 }));
    assert_eq!(
        next_window(u32::MAX, 500),
        Some(Window { start: u32::MAX - 499, end: u32::MAX })
    );
    assert_eq!(next_window(u32::MAX, u32::MAX), Some(Window { start: 1, end: u32::MAX }));
    assert!(full_sync_windows(0, 500).is_empty());
    assert!(full_sync_windows(10, 0).is_empty());
    assert_eq!(full_sync_windows(1000, 500).len(), 2);
    assert_eq!(full_sync_windows(1001, 500).len(), 3);
    assert_eq!(full_sync_windows(1001, 500)[2], Window { start: 1, end: 1 });
}

#[test]
fn windows_cut_the_folder_into_pieces() {
    for (total, batch) in [(1u32, 1u32), (7, 3), (9, 3), (10, 3), (1200, 500), (37, 100)] {
        let windows = full_sync_windows(total, batch);
        let mut expected_end = total;
        for (i, w) in windows.iter().enumerate() {
            assert_eq!(w.end, expected_end);
            assert!(w.start >= 1 && w.start <= w.end);
            if i + 1 < windows.len() {
                assert_eq!(w.end - w.start + 1, batch);
            }
            expected_end = w.start - 1;
        }
        assert_eq!(expected_end, 0);
    }
}
