//! What holds of every run of a synchronization pass.

use vstd::prelude::*;
use crate::sync::checkpoint::{FolderCheckpoint, FolderRole, LiveFolderState, SyncPlan};
use crate::sync::pass::{lemma_next_keeps_wf, PassAction, PassEvent, PassPhase, SyncPass};
use crate::sync::window::windows_spec;

verus! {

/// Whatever the driver reports, a pass keeps [`SyncPass::wf`].
pub proof fn lemma_run_keeps_wf(pass: SyncPass, events: Seq<PassEvent>)
    requires
        pass.wf(),
    ensures
        pass.after(events).wf(),
    decreases events.len(),
{
    if events.len() > 0 {
        lemma_run_keeps_wf(pass, events.drop_last());
        lemma_next_keeps_wf(pass.after(events.drop_last()), events.last());
    }
}

/// A pass that is over stays as it is, whatever is reported to it.
pub proof fn lemma_over_is_final(pass: SyncPass, events: Seq<PassEvent>)
    requires
        pass.is_over(),
    ensures
        pass.after(events) == pass,
    decreases events.len(),
{
    if events.len() > 0 {
        lemma_over_is_final(pass, events.drop_last());
    }
}

/// A run can be cut in two: the state after all events is the state
/// that the rest of the events lead to from the state after the first `k`.
pub proof fn lemma_run_split(pass: SyncPass, events: Seq<PassEvent>, k: int)
    requires
        0 <= k <= events.len(),
    ensures
        pass.after(events) == pass.after(events.take(k)).after(events.skip(k)),
    decreases events.len() - k,
{
    if k == events.len() {
        assert(events.take(k) == events);
        assert(events.skip(k).len() == 0);
    } else {
        let rest = events.skip(k);
        assert(events.drop_last().take(k) == events.take(k));
        assert(events.drop_last().skip(k) == rest.drop_last());
        assert(rest.last() == events.last());
        lemma_run_split(pass, events.drop_last(), k);
    }
}

/// Validity-change purge. When the checkpoint that a pass finds holds
/// another validity token than the server reports, the pass plans a
/// purge; it asks for no fetch, no commit and no checkpoint before the
/// purge is done; and the purge is done only once the driver has reported
/// it in answer to the request to purge that very folder.
pub proof fn lemma_validity_change_purges_first(
    live: LiveFolderState,
    role: Option<FolderRole>,
    batch_size: u32,
    found: FolderCheckpoint,
    events: Seq<PassEvent>,
)
    requires
        batch_size > 0,
        found.validity_token != live.validity_token,
        events.len() > 0,
        events[0] == (PassEvent::CheckpointLoaded { checkpoint: Some(found) }),
    ensures
        ({
            let start = SyncPass::start_spec(live, role, batch_size);
            let end = start.after(events);
            &&& end.wf()
            &&& end.before == Some(found)
            &&& !(end.phase is Failed) ==> end.plan.wants_purge()
            &&& (end.pending() is FetchBySequence || end.pending() is FetchFrom || end.pending()
                is CommitBatch || end.pending() is SaveCheckpoint || end.pending() is Finish)
                ==> end.purged
            &&& end.purged ==> exists|k: int|
                0 < k < events.len() && events[k] is Purged && #[trigger] start.after(
                    events.take(k),
                ).pending() == (PassAction::Purge { folder_id: found.folder_id })
        }),
    decreases events.len(),
{
    let start = SyncPass::start_spec(live, role, batch_size);
    let end = start.after(events);
    lemma_run_keeps_wf(start, events);
    if events.len() == 1 {
        assert(start.after(events.drop_last()) == start);
        assert(end == start.next(events[0]));
    } else {
        let shorter = events.drop_last();
        let prev = start.after(shorter);
        lemma_validity_change_purges_first(live, role, batch_size, found, shorter);
        lemma_run_keeps_wf(start, shorter);
        assert(end == prev.next(events.last()));
        if end.purged {
            if prev.purged {
                let k = choose|k: int|
                    0 < k < shorter.len() && shorter[k] is Purged && #[trigger] start.after(
                        shorter.take(k),
                    ).pending() == (PassAction::Purge { folder_id: found.folder_id });
                assert(shorter.take(k) == events.take(k));
            } else {
                let k = events.len() - 1;
                assert(events.take(k) == shorter);
                assert(prev.phase is Purging);
                assert(events[k] is Purged);
            }
        }
    }
}

/// Partial-failure safety. When an action fails while a pass is running,
/// the pass is given up for good: it asks for nothing more, the
/// checkpoint row keeps the token, watermark and count it had before the
/// pass, and the batches committed are those that were committed before
/// the failure.
pub proof fn lemma_failure_keeps_checkpoint(
    live: LiveFolderState,
    role: Option<FolderRole>,
    batch_size: u32,
    events: Seq<PassEvent>,
    k: int,
)
    requires
        batch_size > 0,
        0 <= k < events.len(),
        events[k] is Failed,
        !(SyncPass::start_spec(live, role, batch_size).after(events.take(k)).phase is Done),
    ensures
        ({
            let start = SyncPass::start_spec(live, role, batch_size);
            let end = start.after(events);
            &&& end.phase is Failed
            &&& end.pending() == PassAction::Abort
            &&& end.committed == start.after(events.take(k)).committed
            &&& end.checkpoint matches Some(row) ==> row.same_progress(end.progress_before())
        }),
{
    let start = SyncPass::start_spec(live, role, batch_size);
    let at_failure = start.after(events.take(k));
    let failed = at_failure.next(events[k]);
    let upto = events.take(k + 1);
    assert(upto.drop_last() == events.take(k));
    assert(upto.last() == events[k]);
    assert(start.after(upto) == failed);
    assert(failed.phase is Failed);
    lemma_run_split(start, events, k + 1);
    lemma_over_is_final(failed, events.skip(k + 1));
    lemma_run_keeps_wf(start, events);
}

/// A pass is done only when the driver has reported the checkpoint as
/// saved, and then the row holds the token and the count that the server
/// reported, and the watermark that the checkpoint found is advanced to;
/// up to then no action of the pass has failed.
pub proof fn lemma_done_means_saved(
    live: LiveFolderState,
    role: Option<FolderRole>,
    batch_size: u32,
    events: Seq<PassEvent>,
)
    requires
        batch_size > 0,
        SyncPass::start_spec(live, role, batch_size).after(events).phase is Done,
    ensures
        ({
            let start = SyncPass::start_spec(live, role, batch_size);
            let end = start.after(events);
            &&& end.checkpoint is Some
            &&& end.checkpoint->0.validity_token == live.validity_token
            &&& end.checkpoint->0.next_watermark == end.progress_before().advanced_watermark(live)
            &&& end.checkpoint->0.next_watermark >= live.next_watermark
            &&& end.checkpoint->0.total_count == live.total_count
            &&& exists|k: int|
                0 <= k < events.len() && events[k] is CheckpointSaved && (#[trigger] start.after(
                    events.take(k),
                )).pending() == (PassAction::SaveCheckpoint { checkpoint: end.checkpoint->0 })
                    && forall|j: int| 0 <= j <= k ==> !(#[trigger] events[j] is Failed)
        }),
    decreases events.len(),
{
    let start = SyncPass::start_spec(live, role, batch_size);
    let end = start.after(events);
    lemma_run_keeps_wf(start, events);
    lemma_inputs_stay(start, events);
    assert(events.len() > 0);
    let shorter = events.drop_last();
    let prev = start.after(shorter);
    lemma_run_keeps_wf(start, shorter);
    if prev.phase is Done {
        lemma_done_means_saved(live, role, batch_size, shorter);
        let row = prev.checkpoint->0;
        let k = choose|k: int|
            0 <= k < shorter.len() && shorter[k] is CheckpointSaved && (#[trigger] start.after(
                shorter.take(k),
            )).pending() == (PassAction::SaveCheckpoint { checkpoint: row }) && forall|j: int|
                0 <= j <= k ==> !(#[trigger] shorter[j] is Failed);
        assert(shorter.take(k) == events.take(k));
        assert forall|j: int| 0 <= j <= k implies !(#[trigger] events[j] is Failed) by {
            assert(events[j] == shorter[j]);
        }
    } else {
        let k = events.len() - 1;
        assert(events.take(k) == shorter);
        assert(prev.phase is SavingCheckpoint);
        assert forall|j: int| 0 <= j <= k implies !(#[trigger] events[j] is Failed) by {
            if j < k {
                if events[j] is Failed {
                    lemma_failed_event_ends_run(start, shorter, j);
                }
            }
        }
    }
}

/// After a failure was reported, a pass is never again in a phase in
/// which it asks for anything.
pub proof fn lemma_failed_event_ends_run(pass: SyncPass, events: Seq<PassEvent>, k: int)
    requires
        0 <= k < events.len(),
        events[k] is Failed,
    ensures
        pass.after(events).is_over(),
{
    let upto = events.take(k + 1);
    assert(upto.drop_last() == events.take(k));
    assert(upto.last() == events[k]);
    let failed = pass.after(upto);
    assert(failed.is_over());
    lemma_run_split(pass, events, k + 1);
    lemma_over_is_final(failed, events.skip(k + 1));
}

/// Monotonic watermark. A pass that completes within one validity epoch
/// leaves a checkpoint whose watermark is no lower than the one it
/// found, whatever the server reports: it is the higher of the two.
pub proof fn lemma_watermark_monotonic(
    role: Option<FolderRole>,
    batch_size: u32,
    found: FolderCheckpoint,
    live: LiveFolderState,
    events: Seq<PassEvent>,
)
    requires
        batch_size > 0,
        found.validity_token == live.validity_token,
        events.len() > 0,
        events[0] == (PassEvent::CheckpointLoaded { checkpoint: Some(found) }),
        SyncPass::start_spec(live, role, batch_size).after(events).phase is Done,
    ensures
        SyncPass::start_spec(live, role, batch_size).after(events).checkpoint matches Some(row)
            && row.next_watermark >= found.next_watermark && row.next_watermark
            >= live.next_watermark && (row.next_watermark == found.next_watermark
            || row.next_watermark == live.next_watermark) && row.validity_token
            == found.validity_token && row.folder_id == found.folder_id,
{
    let start = SyncPass::start_spec(live, role, batch_size);
    lemma_run_keeps_wf(start, events);
    lemma_inputs_stay(start, events);
    lemma_before_is_what_was_found(start, found, events);
}

/// The checkpoint that a pass began with is the one that the driver
/// reported first.
pub proof fn lemma_before_is_what_was_found(
    start: SyncPass,
    found: FolderCheckpoint,
    events: Seq<PassEvent>,
)
    requires
        start.wf(),
        start.phase is LoadingCheckpoint,
        events.len() > 0,
        events[0] == (PassEvent::CheckpointLoaded { checkpoint: Some(found) }),
    ensures
        start.after(events).before == Some(found),
    decreases events.len(),
{
    if events.len() == 1 {
        assert(start.after(events.drop_last()) == start);
        assert(start.after(events) == start.next(events[0]));
    } else {
        lemma_before_is_what_was_found(start, found, events.drop_last());
    }
}

/// The windows of a full fetch, as a pass takes them. While a pass
/// fetches or commits a window, that window is the one of its plan whose
/// place is the number of batches committed so far.
pub proof fn lemma_windows_in_plan_order(
    live: LiveFolderState,
    role: Option<FolderRole>,
    batch_size: u32,
    events: Seq<PassEvent>,
)
    requires
        batch_size > 0,
    ensures
        ({
            let end = SyncPass::start_spec(live, role, batch_size).after(events);
            (end.phase matches PassPhase::FetchingWindow { window } ==> end.plan matches SyncPlan::FullSync {
                last,
                ..
            } && end.committed < windows_spec(last, batch_size).len() && windows_spec(
                last,
                batch_size,
            )[end.committed as int] == window) && (end.phase matches PassPhase::CommittingWindow {
                window,
            } ==> end.plan matches SyncPlan::FullSync { last, .. } && end.committed < windows_spec(
                last,
                batch_size,
            ).len() && windows_spec(last, batch_size)[end.committed as int] == window)
        }),
{
    let start = SyncPass::start_spec(live, role, batch_size);
    lemma_run_keeps_wf(start, events);
    lemma_inputs_stay(start, events);
}

/// A pass never changes the size of its windows, nor the state of the
/// server that it was begun with.
pub proof fn lemma_inputs_stay(pass: SyncPass, events: Seq<PassEvent>)
    ensures
        pass.after(events).batch_size == pass.batch_size,
        pass.after(events).live == pass.live,
        pass.after(events).role == pass.role,
    decreases events.len(),
{
    if events.len() > 0 {
        lemma_inputs_stay(pass, events.drop_last());
    }
}

} // verus!
