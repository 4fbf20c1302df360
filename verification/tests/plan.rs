use mailsync::sync::checkpoint::{reconcile, FolderCheckpoint, LiveFolderState, SyncPlan};
use mailsync::sync::window::{full_sync_windows, next_window, Window};

#[test]
fn unseen_folder_is_fetched_in_full() {
    let live = LiveFolderState { validity_token: 7, next_watermark: 1201, total_count: 1200 };
    let plan = reconcile(None, &live);
    assert_eq!(
        plan,
        SyncPlan::FullSync { create_checkpoint: true, purge: false, first: 1, last: 1200 }
    );
}

#[test]
fn twelve_hundred_messages_make_three_windows() {
    let windows = full_sync_windows(1200, 500);
    assert_eq!(
        windows,
        vec![
            Window { start: 701, end: 1200 },
            Window { start: 201, end: 700 },
            Window { start: 1, end: 200 },
        ]
    );
    assert_eq!(next_window(0, 500), None);
    let _ = FolderCheckpoint::blank(1, None);
}
