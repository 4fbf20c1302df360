use mailsync::sync::checkpoint::{
    reconcile, FolderCheckpoint, FolderRole, LiveFolderState, SyncPlan,
};
use mailsync::sync::envelope::Envelope;
use mailsync::sync::pass::{PassAction, PassEvent, PassPhase, SyncPass};
use mailsync::sync::window::Window;
use mailsync::sync::writer::CacheWriter;

fn envelope(uid: u32, flags: &[&str]) -> Envelope {
    Envelope {
        id: uid.to_string(),
        message_id: format!("<{}@example.com>", uid),
        subject: format!("Subject {}", uid),
        sender_name: Some("Sender".to_string()),
        sender_address: "sender@example.com".to_string(),
        date: 1_700_000_000 + uid as i64,
        flags: flags.iter().map(|f| f.to_string()).collect(),
    }
}

/// A folder on the server: the message with sequence number `n` has the
/// identifier `first_uid + n - 1`.
struct Folder {
    token: u32,
    first_uid: u32,
    count: u32,
    flags: Vec<&'static str>,
}

impl Folder {
    fn live(&self) -> LiveFolderState {
        LiveFolderState {
            validity_token: self.token,
            next_watermark: self.first_uid + self.count,
            total_count: self.count,
        }
    }

    fn by_sequence(&self, window: Window) -> Vec<Envelope> {
        (window.start..=window.end.min(self.count))
            .map(|n| envelope(self.first_uid + n - 1, &self.flags))
            .collect()
    }

    fn from_uid(&self, from: u32) -> Vec<Envelope> {
        (from.max(self.first_uid)..self.first_uid + self.count)
            .map(|uid| envelope(uid, &self.flags))
            .collect()
    }
}

/// Runs a pass to its end. The commit with the number `fail_commit`
/// (counted from `0`) is reported as failed and not carried out.
fn run_pass(
    writer: &mut CacheWriter,
    folder: &Folder,
    role: Option<FolderRole>,
    batch_size: u32,
    fail_commit: Option<usize>,
) -> (SyncPass, Vec<PassAction>, usize) {
    let path = "INBOX".to_string();
    let mut pass = SyncPass::with_batch_size(folder.live(), role, batch_size).unwrap();
    let mut actions = vec![pass.pending_action()];
    let mut batch: Vec<Envelope> = Vec::new();
    let mut commits = 0usize;
    let mut notifications = 0usize;
    while !pass.finished() {
        let action = pass.pending_action();
        let event = match action {
            PassAction::FetchBySequence { window } => {
                batch = folder.by_sequence(window);
                PassEvent::Fetched { count: batch.len() }
            }
            PassAction::FetchFrom { from } => {
                batch = folder.from_uid(from);
                PassEvent::Fetched { count: batch.len() }
            }
            PassAction::CommitBatch { .. } if fail_commit == Some(commits) => PassEvent::Failed,
            other => {
                if matches!(other, PassAction::CommitBatch { .. }) {
                    commits += 1;
                }
                writer.perform(1, &path, other, &batch).unwrap()
            }
        };
        let step = pass.step(event);
        if step.notify {
            notifications += 1;
        }
        actions.push(step.action);
    }
    (pass, actions, notifications)
}

fn checkpoint_of(writer: &CacheWriter) -> Option<FolderCheckpoint> {
    writer.checkpoint_store().load(1, &"INBOX".to_string())
}

#[test]
fn empty_folder_is_recorded_without_fetch() {
    let mut writer = CacheWriter::new();
    let folder = Folder { token: 5, first_uid: 1, count: 0, flags: vec![] };
    assert_eq!(
        reconcile(None, &folder.live()),
        SyncPlan::FullSync { create_checkpoint: true, purge: false, first: 1, last: 0 }
    );
    let (pass, actions, notifications) = run_pass(&mut writer, &folder, None, 500, None);
    assert!(pass.succeeded());
    assert_eq!(
        actions,
        vec![
            PassAction::LoadCheckpoint,
            PassAction::CreateCheckpoint { role: None },
            PassAction::SaveCheckpoint {
                checkpoint: FolderCheckpoint {
                    folder_id: 1,
                    validity_token: 5,
                    next_watermark: 1,
                    total_count: 0,
                    role: None,
                },
            },
            PassAction::Finish,
        ]
    );
    assert_eq!(notifications, 1);
    assert_eq!(writer.mail_cache().emails().len(), 0);
    let cp = checkpoint_of(&writer).unwrap();
    assert_eq!(cp.total_count, 0);
    assert_eq!(cp.next_watermark, 1);
    assert_eq!(pass.committed, 0);
}

#[test]
fn full_sync_of_1200_takes_three_descending_windows() {
    let mut writer = CacheWriter::new();
    let folder = Folder { token: 9, first_uid: 1, count: 1200, flags: vec!["\\Seen"] };
    let (pass, actions, notifications) =
        run_pass(&mut writer, &folder, Some(FolderRole::Inbox), 500, None);
    assert!(pass.succeeded());
    let fetched: Vec<Window> = actions
        .iter()
        .filter_map(|a| match a {
            PassAction::FetchBySequence { window } => Some(*window),
            _ => None,
        })
        .collect();
    assert_eq!(
        fetched,
        vec![
            Window { start: 701, end: 1200 },
            Window { start: 201, end: 700 },
            Window { start: 1, end: 200 },
        ]
    );
    let saves: Vec<usize> = actions
        .iter()
        .enumerate()
        .filter(|(_, a)| matches!(a, PassAction::SaveCheckpoint { .. }))
        .map(|(i, _)| i)
        .collect();
    assert_eq!(saves, vec![actions.len() - 2]);
    assert_eq!(actions.last(), Some(&PassAction::Finish));
    assert_eq!(pass.committed, 3);
    assert_eq!(notifications, 4);
    let rows = writer.mail_cache().emails();
    assert_eq!(rows.len(), 1200);
    assert_eq!(rows[0].remote_id, "701");
    assert_eq!(rows[499].remote_id, "1200");
    assert_eq!(rows[500].remote_id, "201");
    assert_eq!(rows[1199].remote_id, "200");
    assert_eq!(
        checkpoint_of(&writer),
        Some(FolderCheckpoint {
            folder_id: 1,
            validity_token: 9,
            next_watermark: 1201,
            total_count: 1200,
            role: Some(FolderRole::Inbox),
        })
    );
}

#[test]
fn incremental_sync_fetches_the_three_new_envelopes() {
    let mut writer = CacheWriter::new();
    let mut folder = Folder { token: 9, first_uid: 1, count: 10, flags: vec![] };
    run_pass(&mut writer, &folder, None, 500, None);
    let other = vec![envelope(1, &["\\Flagged"])];
    assert_eq!(writer.mail_cache().emails().len(), 10);
    let mut other_writer_batch = other;
    other_writer_batch[0].id = "77".to_string();
    assert_eq!(
        writer.perform(1, &"INBOX".to_string(), PassAction::CommitBatch { folder_id: 42 }, &other_writer_batch),
        Some(PassEvent::Committed)
    );
    let before: Vec<(i64, String, String)> = writer
        .mail_cache()
        .emails()
        .iter()
        .map(|e| (e.id, e.remote_id.clone(), e.flags.clone()))
        .collect();

    folder.count = 13;
    let stored = checkpoint_of(&writer).unwrap();
    assert_eq!(reconcile(Some(&stored), &folder.live()), SyncPlan::IncrementalSync { from: 11 });
    let (pass, actions, _) = run_pass(&mut writer, &folder, None, 500, None);
    assert!(pass.succeeded());
    assert!(actions.contains(&PassAction::FetchFrom { from: 11 }));
    assert!(!actions.iter().any(|a| matches!(a, PassAction::FetchBySequence { .. })));
    assert_eq!(pass.committed, 1);

    let rows = writer.mail_cache().emails();
    assert_eq!(rows.len(), 14);
    let after: Vec<(i64, String, String)> =
        rows.iter().take(11).map(|e| (e.id, e.remote_id.clone(), e.flags.clone())).collect();
    assert_eq!(before, after);
    let new_ids: Vec<&str> = rows.iter().skip(11).map(|e| e.remote_id.as_str()).collect();
    assert_eq!(new_ids, vec!["11", "12", "13"]);
    assert_eq!(checkpoint_of(&writer).unwrap().next_watermark, 14);
}

#[test]
fn unchanged_folder_needs_no_fetch() {
    let mut writer = CacheWriter::new();
    let folder = Folder { token: 9, first_uid: 1, count: 10, flags: vec![] };
    run_pass(&mut writer, &folder, None, 500, None);
    let stored = checkpoint_of(&writer).unwrap();
    assert_eq!(reconcile(Some(&stored), &folder.live()), SyncPlan::NoOp);
    let (pass, actions, notifications) = run_pass(&mut writer, &folder, None, 500, None);
    assert!(pass.succeeded());
    assert_eq!(
        actions,
        vec![
            PassAction::LoadCheckpoint,
            PassAction::SaveCheckpoint { checkpoint: stored },
            PassAction::Finish,
        ]
    );
    assert_eq!(notifications, 1);
    assert_eq!(writer.mail_cache().emails().len(), 10);
}

#[test]
fn validity_change_purges_before_any_insert() {
    let mut writer = CacheWriter::new();
    let old = Folder { token: 1, first_uid: 1, count: 5, flags: vec!["\\Seen"] };
    run_pass(&mut writer, &old, None, 500, None);
    assert_eq!(writer.mail_cache().count_in_folder(1), 5);

    let renumbered = Folder { token: 2, first_uid: 100, count: 3, flags: vec![] };
    let stored = checkpoint_of(&writer).unwrap();
    assert_eq!(
        reconcile(Some(&stored), &renumbered.live()),
        SyncPlan::FullSync { create_checkpoint: false, purge: true, first: 1, last: 3 }
    );
    let (pass, actions, _) = run_pass(&mut writer, &renumbered, None, 500, None);
    assert!(pass.succeeded());
    assert!(pass.purged);
    let purge_at = actions.iter().position(|a| *a == PassAction::Purge { folder_id: 1 }).unwrap();
    let first_fetch =
        actions.iter().position(|a| matches!(a, PassAction::FetchBySequence { .. })).unwrap();
    let first_commit =
        actions.iter().position(|a| matches!(a, PassAction::CommitBatch { .. })).unwrap();
    assert!(purge_at < first_fetch && first_fetch < first_commit);
    let ids: Vec<&str> =
        writer.mail_cache().emails().iter().map(|e| e.remote_id.as_str()).collect();
    assert_eq!(ids, vec!["100", "101", "102"]);
    assert_eq!(checkpoint_of(&writer).unwrap().validity_token, 2);
}

#[test]
fn purge_leaves_other_folders_alone() {
    let mut writer = CacheWriter::new();
    let path = "INBOX".to_string();
    let a = vec![envelope(1, &[]), envelope(2, &[])];
    let b = vec![envelope(1, &[])];
    writer.perform(1, &path, PassAction::CommitBatch { folder_id: 1 }, &a);
    writer.perform(1, &path, PassAction::CommitBatch { folder_id: 2 }, &b);
    assert_eq!(
        writer.perform(1, &path, PassAction::Purge { folder_id: 1 }, &Vec::new()),
        Some(PassEvent::Purged)
    );
    assert_eq!(writer.mail_cache().count_in_folder(1), 0);
    assert_eq!(writer.mail_cache().count_in_folder(2), 1);
    assert_eq!(writer.mail_cache().emails()[0].id, 3);
}

#[test]
fn failed_commit_keeps_the_checkpoint_and_the_batches_before_it() {
    let mut writer = CacheWriter::new();
    let folder = Folder { token: 9, first_uid: 1, count: 1200, flags: vec![] };
    let (pass, actions, _) = run_pass(&mut writer, &folder, None, 500, Some(2));
    assert_eq!(pass.phase, PassPhase::Failed);
    assert!(!pass.succeeded());
    assert_eq!(pass.committed, 2);
    assert_eq!(actions.last(), Some(&PassAction::Abort));
    assert!(!actions.iter().any(|a| matches!(a, PassAction::SaveCheckpoint { .. })));
    assert_eq!(writer.mail_cache().emails().len(), 1000);
    assert_eq!(checkpoint_of(&writer), Some(FolderCheckpoint::blank(1, None)));

    let (retry, _, _) = run_pass(&mut writer, &folder, None, 500, None);
    assert!(retry.succeeded());
    assert_eq!(retry.committed, 3);
    let rows = writer.mail_cache().emails();
    assert_eq!(rows.len(), 1200);
    let mut ids: Vec<u32> = rows.iter().map(|e| e.remote_id.parse().unwrap()).collect();
    ids.sort();
    assert_eq!(ids, (1..=1200).collect::<Vec<u32>>());
    assert_eq!(checkpoint_of(&writer).unwrap().next_watermark, 1201);
}

#[test]
fn failed_incremental_pass_keeps_the_old_checkpoint() {
    let mut writer = CacheWriter::new();
    let mut folder = Folder { token: 9, first_uid: 1, count: 4, flags: vec![] };
    run_pass(&mut writer, &folder, None, 500, None);
    let before = checkpoint_of(&writer).unwrap();
    folder.count = 6;
    let (pass, _, _) = run_pass(&mut writer, &folder, None, 500, Some(0));
    assert_eq!(pass.phase, PassPhase::Failed);
    assert_eq!(checkpoint_of(&writer), Some(before));
    assert_eq!(writer.mail_cache().emails().len(), 4);
}

#[test]
fn rerunning_a_full_sync_leaves_the_cache_as_it_is() {
    let mut writer = CacheWriter::new();
    let folder = Folder { token: 9, first_uid: 1, count: 7, flags: vec!["\\Seen"] };
    run_pass(&mut writer, &folder, None, 3, None);
    let snapshot: Vec<String> =
        writer.mail_cache().emails().iter().map(|e| format!("{:?}", e)).collect();
    let path = "INBOX".to_string();
    for window in [Window { start: 5, end: 7 }, Window { start: 2, end: 4 }, Window { start: 1, end: 1 }] {
        let batch = folder.by_sequence(window);
        assert_eq!(
            writer.perform(1, &path, PassAction::CommitBatch { folder_id: 1 }, &batch),
            Some(PassEvent::Committed)
        );
    }
    let again: Vec<String> =
        writer.mail_cache().emails().iter().map(|e| format!("{:?}", e)).collect();
    assert_eq!(snapshot, again);
    let fresh = vec![envelope(8, &[])];
    writer.perform(1, &path, PassAction::CommitBatch { folder_id: 1 }, &fresh);
    assert_eq!(writer.mail_cache().emails().last().unwrap().id, 8);
}

#[test]
fn second_sight_updates_flags_only() {
    let mut writer = CacheWriter::new();
    let path = "INBOX".to_string();
    writer.perform(1, &path, PassAction::CommitBatch { folder_id: 1 }, &vec![envelope(3, &[])]);
    let mut changed = envelope(3, &["\\Seen", "\\Flagged"]);
    changed.subject = "Another subject".to_string();
    changed.date = 0;
    changed.sender_address = "other@example.com".to_string();
    writer.perform(9, &path, PassAction::CommitBatch { folder_id: 1 }, &vec![changed]);
    let rows = writer.mail_cache().emails();
    assert_eq!(rows.len(), 1);
    assert_eq!(rows[0].id, 1);
    assert_eq!(rows[0].account_id, 1);
    assert_eq!(rows[0].flags, "[\"\\\\Seen\",\"\\\\Flagged\"]");
    assert_eq!(rows[0].subject.as_deref(), Some("Subject 3"));
    assert_eq!(rows[0].sender_address, "sender@example.com");
    assert_eq!(rows[0].date, "2023-11-14T22:13:23Z");
    assert_eq!(rows[0].message_id.as_deref(), Some("<3@example.com>"));
    assert_eq!(rows[0].sender_name.as_deref(), Some("Sender"));
    assert_eq!(rows[0].snippet, None);
    assert!(!rows[0].has_attachments);
}

#[test]
fn batch_with_unwritable_date_is_written_not_at_all() {
    let mut writer = CacheWriter::new();
    let path = "INBOX".to_string();
    let mut bad = envelope(2, &[]);
    bad.date = i64::MAX;
    let batch = vec![envelope(1, &[]), bad];
    assert_eq!(
        writer.perform(1, &path, PassAction::CommitBatch { folder_id: 1 }, &batch),
        Some(PassEvent::Failed)
    );
    assert_eq!(writer.mail_cache().emails().len(), 0);
}

#[test]
fn role_of_a_known_folder_is_updated_first() {
    let mut writer = CacheWriter::new();
    let folder = Folder { token: 9, first_uid: 1, count: 2, flags: vec![] };
    run_pass(&mut writer, &folder, None, 500, None);
    let (pass, actions, _) = run_pass(&mut writer, &folder, Some(FolderRole::Sent), 500, None);
    assert!(pass.succeeded());
    assert_eq!(actions[1], PassAction::UpdateRole { folder_id: 1, role: FolderRole::Sent });
    assert_eq!(checkpoint_of(&writer).unwrap().role, Some(FolderRole::Sent));
    let (_, again, _) = run_pass(&mut writer, &folder, Some(FolderRole::Sent), 500, None);
    assert!(!again.iter().any(|a| matches!(a, PassAction::UpdateRole { .. })));
    let (_, keep, _) = run_pass(&mut writer, &folder, None, 500, None);
    assert!(!keep.iter().any(|a| matches!(a, PassAction::UpdateRole { .. })));
    assert_eq!(checkpoint_of(&writer).unwrap().role, Some(FolderRole::Sent));
}

#[test]
fn full_sync_stops_at_an_empty_window() {
    let live = LiveFolderState { validity_token: 1, next_watermark: 50, total_count: 30 };
    let mut pass = SyncPass::with_batch_size(live, None, 10).unwrap();
    pass.step(PassEvent::CheckpointLoaded { checkpoint: None });
    let step = pass.step(PassEvent::CheckpointCreated { folder_id: 4 });
    assert_eq!(step.action, PassAction::FetchBySequence { window: Window { start: 21, end: 30 } });
    assert_eq!(pass.step(PassEvent::Fetched { count: 10 }).action, PassAction::CommitBatch { folder_id: 4 });
    let step = pass.step(PassEvent::Committed);
    assert!(step.notify);
    assert_eq!(step.action, PassAction::FetchBySequence { window: Window { start: 11, end: 20 } });
    let step = pass.step(PassEvent::Fetched { count: 0 });
    assert!(!step.notify);
    assert_eq!(
        step.action,
        PassAction::SaveCheckpoint {
            checkpoint: FolderCheckpoint {
                folder_id: 4,
                validity_token: 1,
                next_watermark: 50,
                total_count: 30,
                role: None,
            },
        }
    );
    assert_eq!(pass.step(PassEvent::CheckpointSaved).action, PassAction::Finish);
    assert_eq!(pass.committed, 1);
}

#[test]
fn unexpected_event_gives_the_pass_up() {
    let live = LiveFolderState { validity_token: 1, next_watermark: 5, total_count: 4 };
    let mut pass = SyncPass::new(live, None);
    assert_eq!(pass.batch_size, 500);
    assert_eq!(pass.pending_action(), PassAction::LoadCheckpoint);
    assert_eq!(pass.step(PassEvent::Committed).action, PassAction::Abort);
    assert!(pass.finished());
    assert_eq!(pass.step(PassEvent::CheckpointLoaded { checkpoint: None }).action, PassAction::Abort);
    assert_eq!(pass.phase, PassPhase::Failed);
}

#[test]
fn finished_pass_ignores_late_failures() {
    let live = LiveFolderState { validity_token: 1, next_watermark: 1, total_count: 0 };
    let mut pass = SyncPass::new(live, None);
    pass.step(PassEvent::CheckpointLoaded { checkpoint: None });
    pass.step(PassEvent::CheckpointCreated { folder_id: 1 });
    pass.step(PassEvent::CheckpointSaved);
    assert!(pass.succeeded());
    let step = pass.step(PassEvent::Failed);
    assert_eq!(step.action, PassAction::Finish);
    assert!(!step.notify);
    assert!(pass.succeeded());
}

#[test]
fn batch_size_zero_is_refused() {
    let live = LiveFolderState { validity_token: 1, next_watermark: 1, total_count: 0 };
    assert!(SyncPass::with_batch_size(live, None, 0).is_none());
    assert!(SyncPass::with_batch_size(live, None, 1).is_some());
}

#[test]
fn watermark_does_not_go_back_within_an_epoch() {
    let mut writer = CacheWriter::new();
    let mut folder = Folder { token: 3, first_uid: 1, count: 2, flags: vec![] };
    let mut last = 0;
    for count in [2, 2, 5, 9, 9, 10] {
        folder.count = count;
        let (pass, _, _) = run_pass(&mut writer, &folder, None, 4, None);
        assert!(pass.succeeded());
        let now = checkpoint_of(&writer).unwrap().next_watermark;
        assert!(now >= last);
        last = now;
    }
    assert_eq!(last, 11);
    assert_eq!(writer.mail_cache().emails().len(), 10);
}

#[test]
fn watermark_stays_when_the_server_reports_a_lower_one_or_none() {
    let stored = FolderCheckpoint {
        folder_id: 4,
        validity_token: 9,
        next_watermark: 101,
        total_count: 100,
        role: None,
    };
    for reported in [None, Some(5), Some(100)] {
        let live = LiveFolderState::from_select(Some(9), reported, Some(100));
        assert_eq!(stored.advanced(&live).next_watermark, 101);

        let mut pass = SyncPass::new(live, None);
        let step = pass.step(PassEvent::CheckpointLoaded { checkpoint: Some(stored) });
        assert_eq!(pass.plan, SyncPlan::NoOp);
        let saved = FolderCheckpoint { total_count: 100, ..stored };
        assert_eq!(step.action, PassAction::SaveCheckpoint { checkpoint: saved });
        pass.step(PassEvent::CheckpointSaved);
        assert!(pass.succeeded());
        assert_eq!(pass.checkpoint.unwrap().next_watermark, 101);
    }
}

#[test]
fn watermark_follows_the_server_where_it_is_higher_or_the_epoch_is_new() {
    let stored = FolderCheckpoint {
        folder_id: 4,
        validity_token: 9,
        next_watermark: 101,
        total_count: 100,
        role: None,
    };
    let higher = LiveFolderState { validity_token: 9, next_watermark: 104, total_count: 103 };
    assert_eq!(
        stored.advanced(&higher),
        FolderCheckpoint { next_watermark: 104, total_count: 103, ..stored }
    );
    let renumbered = LiveFolderState { validity_token: 10, next_watermark: 7, total_count: 6 };
    assert_eq!(
        stored.advanced(&renumbered),
        FolderCheckpoint { validity_token: 10, next_watermark: 7, total_count: 6, ..stored }
    );
}

#[test]
fn new_writer_gives_the_key_one_to_its_first_checkpoint_and_row() {
    let mut writer = CacheWriter::new();
    let path = "INBOX".to_string();
    let event = writer.perform(7, &path, PassAction::CreateCheckpoint { role: None }, &Vec::new());
    assert_eq!(event, Some(PassEvent::CheckpointCreated { folder_id: 1 }));
    let other = "Sent".to_string();
    let event = writer.perform(7, &other, PassAction::CreateCheckpoint { role: None }, &Vec::new());
    assert_eq!(event, Some(PassEvent::CheckpointCreated { folder_id: 2 }));
    let event = writer.perform(7, &other, PassAction::CreateCheckpoint { role: None }, &Vec::new());
    assert_eq!(event, Some(PassEvent::Failed));

    let batch = vec![envelope(1, &[])];
    let event = writer.perform(7, &path, PassAction::CommitBatch { folder_id: 1 }, &batch);
    assert_eq!(event, Some(PassEvent::Committed));
    assert_eq!(writer.mail_cache().emails()[0].id, 1);
}

#[test]
fn complete_pass_after_a_failed_one_leaves_what_a_complete_pass_alone_leaves() {
    // Within one epoch the second pass does not purge: the rows are the very same.
    let folder = Folder { token: 0, first_uid: 1, count: 11, flags: vec!["\\Seen"] };

    let mut interrupted = CacheWriter::new();
    let (failed, _, _) = run_pass(&mut interrupted, &folder, None, 3, Some(2));
    assert_eq!(failed.phase, PassPhase::Failed);
    assert_eq!(interrupted.mail_cache().emails().len(), 6);
    let (retry, actions, _) = run_pass(&mut interrupted, &folder, None, 3, None);
    assert!(retry.succeeded());
    assert!(!actions.iter().any(|a| matches!(a, PassAction::Purge { .. })));

    let mut straight = CacheWriter::new();
    let (pass, _, _) = run_pass(&mut straight, &folder, None, 3, None);
    assert!(pass.succeeded());

    let rows = |w: &CacheWriter| -> Vec<String> {
        w.mail_cache().emails().iter().map(|e| format!("{:?}", e)).collect()
    };
    assert_eq!(rows(&interrupted), rows(&straight));
    assert_eq!(rows(&straight).len(), 11);
    assert_eq!(checkpoint_of(&interrupted), checkpoint_of(&straight));
}

#[test]
fn complete_pass_after_a_failed_first_pass_purges_and_holds_each_envelope_once() {
    // The blank checkpoint of a folder's first pass holds no token, so the
    // next pass begins a new epoch: it purges what was committed and
    // fetches all again.
    let folder = Folder { token: 9, first_uid: 1, count: 11, flags: vec!["\\Seen"] };
    let mut writer = CacheWriter::new();
    let (failed, _, _) = run_pass(&mut writer, &folder, None, 3, Some(2));
    assert_eq!(failed.phase, PassPhase::Failed);
    assert_eq!(writer.mail_cache().emails().len(), 6);

    let (retry, actions, _) = run_pass(&mut writer, &folder, None, 3, None);
    assert!(retry.succeeded());
    assert!(actions.iter().any(|a| matches!(a, PassAction::Purge { folder_id: 1 })));
    let mut ids: Vec<u32> =
        writer.mail_cache().emails().iter().map(|e| e.remote_id.parse().unwrap()).collect();
    ids.sort();
    assert_eq!(ids, (1..=11).collect::<Vec<u32>>());
    assert!(writer.mail_cache().emails().iter().all(|e| e.flags == "[\"\\\\Seen\"]"));
    assert_eq!(checkpoint_of(&writer).unwrap().validity_token, 9);
    assert_eq!(checkpoint_of(&writer).unwrap().next_watermark, 12);
}
