//! What the commits of a whole pass make of the cache.
//!
//! A pass commits the batches that it fetches one after the other. The
//! laws here speak of all the commits of a pass together: of a pass that
//! is run again, of a pass that follows a failed one, and of a pass that
//! begins with a purge.

use vstd::prelude::*;
use crate::emails::EmailView;
use crate::sync::cache::{
    in_batch, last_flags, lemma_batch_keeps_other_folders, lemma_batch_row,
    lemma_in_batch_is_in_folder, lemma_purge_empties_folder, lemma_recommit_changes_nothing,
    CacheState,
};
use crate::sync::checkpoint::{FolderCheckpoint, FolderRole, LiveFolderState};
use crate::sync::pass_laws::{
    lemma_done_means_saved, lemma_run_keeps_wf, lemma_validity_change_purges_first,
};
use crate::sync::envelope::{first_row, EnvelopeView};
use crate::sync::pass::{
    lemma_next_keeps_wf, lemma_window_committed, PassAction, PassEvent, PassPhase, SyncPass,
};
use crate::sync::window::{
    lemma_windows_below, lemma_windows_cover, lemma_windows_partition, windows_spec, Window,
};

verus! {

/// The envelopes of several batches, in the order in which they were
/// fetched.
pub open spec fn joined(batches: Seq<Seq<EnvelopeView>>) -> Seq<EnvelopeView>
    decreases batches.len(),
{
    if batches.len() == 0 {
        Seq::empty()
    } else {
        joined(batches.drop_last()) + batches.last()
    }
}

/// The cache after the batches of a pass over `folder_id` were committed,
/// one after the other.
pub open spec fn after_commits(
    state: CacheState,
    account_id: i64,
    folder_id: i64,
    batches: Seq<Seq<EnvelopeView>>,
) -> CacheState
    decreases batches.len(),
{
    if batches.len() == 0 {
        state
    } else {
        after_commits(state, account_id, folder_id, batches.drop_last()).with_batch(
            account_id,
            folder_id,
            batches.last(),
        )
    }
}

/// Committing one batch and then another is committing the two as one.
pub proof fn lemma_batches_compose(
    state: CacheState,
    account_id: i64,
    folder_id: i64,
    a: Seq<EnvelopeView>,
    b: Seq<EnvelopeView>,
)
    ensures
        state.with_batch(account_id, folder_id, a).with_batch(account_id, folder_id, b)
            == state.with_batch(account_id, folder_id, a + b),
    decreases b.len(),
{
    if b.len() == 0 {
        assert(a + b == a);
    } else {
        lemma_batches_compose(state, account_id, folder_id, a, b.drop_last());
        assert((a + b).drop_last() == a + b.drop_last());
        assert((a + b).last() == b.last());
    }
}

/// The commits of a pass are one commit of all that was fetched.
pub proof fn lemma_commits_are_one_batch(
    state: CacheState,
    account_id: i64,
    folder_id: i64,
    batches: Seq<Seq<EnvelopeView>>,
)
    ensures
        after_commits(state, account_id, folder_id, batches) == state.with_batch(
            account_id,
            folder_id,
            joined(batches),
        ),
    decreases batches.len(),
{
    if batches.len() > 0 {
        lemma_commits_are_one_batch(state, account_id, folder_id, batches.drop_last());
        lemma_batches_compose(
            state,
            account_id,
            folder_id,
            joined(batches.drop_last()),
            batches.last(),
        );
    }
}

/// The commits of a pass can be cut in two: the cache after all of them
/// is the cache that the later ones make of what the first `n` left.
pub proof fn lemma_commits_split(
    state: CacheState,
    account_id: i64,
    folder_id: i64,
    batches: Seq<Seq<EnvelopeView>>,
    n: int,
)
    requires
        0 <= n <= batches.len(),
    ensures
        after_commits(state, account_id, folder_id, batches) == after_commits(
            after_commits(state, account_id, folder_id, batches.take(n)),
            account_id,
            folder_id,
            batches.skip(n),
        ),
    decreases batches.len(),
{
    if n == batches.len() {
        assert(batches.take(n) == batches);
        assert(batches.skip(n).len() == 0);
    } else {
        lemma_commits_split(state, account_id, folder_id, batches.drop_last(), n);
        assert(batches.drop_last().take(n) == batches.take(n));
        assert(batches.skip(n).drop_last() == batches.drop_last().skip(n));
        assert(batches.skip(n).last() == batches.last());
    }
}

/// Idempotence of a whole pass. When a pass has committed its batches
/// and a second pass fetches and commits the same batches again, the
/// cache stays as the first pass left it: no row is added, no key is
/// used up, and every row keeps each of its fields.
pub proof fn lemma_rerun_changes_nothing(
    state: CacheState,
    account_id: i64,
    folder_id: i64,
    batches: Seq<Seq<EnvelopeView>>,
)
    ensures
        ({
            let once = after_commits(state, account_id, folder_id, batches);
            after_commits(once, account_id, folder_id, batches) == once
        }),
{
    let once = after_commits(state, account_id, folder_id, batches);
    let twice = after_commits(once, account_id, folder_id, batches);
    lemma_commits_are_one_batch(state, account_id, folder_id, batches);
    lemma_commits_are_one_batch(once, account_id, folder_id, batches);
    lemma_recommit_changes_nothing(state, account_id, folder_id, joined(batches));
    assert(twice.rows == once.rows && twice.next_id == once.next_id);
}

/// A complete pass after a failed one. When a pass was given up after
/// the first `n` of its batches were committed, and the next pass commits
/// all of them, the cache is what a complete pass alone would have left:
/// no envelope is missing, and none has a second row.
pub proof fn lemma_rerun_completes_failed_run(
    state: CacheState,
    account_id: i64,
    folder_id: i64,
    batches: Seq<Seq<EnvelopeView>>,
    n: int,
)
    requires
        0 <= n <= batches.len(),
    ensures
        after_commits(
            after_commits(state, account_id, folder_id, batches.take(n)),
            account_id,
            folder_id,
            batches,
        ) == after_commits(state, account_id, folder_id, batches),
{
    let partial = after_commits(state, account_id, folder_id, batches.take(n));
    lemma_commits_split(partial, account_id, folder_id, batches, n);
    lemma_rerun_changes_nothing(state, account_id, folder_id, batches.take(n));
    lemma_commits_split(state, account_id, folder_id, batches, n);
}

/// The place of the first envelope of a batch for `folder_id` that has
/// the key `key`.
pub open spec fn first_in_batch(folder_id: i64, batch: Seq<EnvelopeView>, key: (i64, Seq<char>)) -> int
    decreases batch.len(),
{
    if batch.len() == 0 {
        0
    } else if in_batch(folder_id, batch.drop_last(), key) {
        first_in_batch(folder_id, batch.drop_last(), key)
    } else {
        batch.len() - 1
    }
}

/// A batch holds a key where one of its envelopes has it, and the first
/// such envelope comes after envelopes with other keys only.
pub proof fn lemma_in_batch(folder_id: i64, batch: Seq<EnvelopeView>, key: (i64, Seq<char>))
    ensures
        in_batch(folder_id, batch, key) == exists|j: int|
            0 <= j < batch.len() && (folder_id, (#[trigger] batch[j]).id) == key,
        in_batch(folder_id, batch, key) ==> {
            let first = first_in_batch(folder_id, batch, key);
            &&& 0 <= first < batch.len()
            &&& (folder_id, batch[first].id) == key
            &&& forall|j: int| 0 <= j < first ==> (folder_id, (#[trigger] batch[j]).id) != key
        },
    decreases batch.len(),
{
    if batch.len() > 0 {
        let rest = batch.drop_last();
        lemma_in_batch(folder_id, rest, key);
        if in_batch(folder_id, batch, key) {
            if in_batch(folder_id, rest, key) {
                let j = choose|j: int|
                    0 <= j < rest.len() && (folder_id, (#[trigger] rest[j]).id) == key;
                assert(batch[j] == rest[j]);
                let first = first_in_batch(folder_id, batch, key);
                assert(batch[first] == rest[first]);
                assert forall|j: int| 0 <= j < first implies (folder_id, (#[trigger] batch[j]).id)
                    != key by {
                    assert(batch[j] == rest[j]);
                }
            } else {
                assert((folder_id, batch[batch.len() - 1].id) == key);
                assert forall|j: int| 0 <= j < batch.len() - 1 implies (
                    folder_id,
                    (#[trigger] batch[j]).id,
                ) != key by {
                    assert(batch[j] == rest[j]);
                }
            }
        } else {
            assert forall|j: int| 0 <= j < batch.len() implies (folder_id, (#[trigger] batch[j]).id)
                != key by {
                if j < rest.len() {
                    assert(batch[j] == rest[j]);
                }
            }
        }
    }
}

/// The row of a key that the cache did not hold before a batch was
/// written is made from the first envelope of the batch that has the
/// key, and carries the flags of the last.
pub proof fn lemma_batch_fresh_row(
    state: CacheState,
    account_id: i64,
    folder_id: i64,
    batch: Seq<EnvelopeView>,
    key: (i64, Seq<char>),
)
    requires
        !state.rows.dom().contains(key),
        in_batch(folder_id, batch, key),
    ensures
        ({
            let after = state.with_batch(account_id, folder_id, batch);
            let first = batch[first_in_batch(folder_id, batch, key)];
            &&& after.rows.dom().contains(key)
            &&& after.rows[key] == (EmailView {
                id: after.rows[key].id,
                flags: last_flags(folder_id, batch, key),
                ..first_row(0, account_id, folder_id, first)
            })
        }),
    decreases batch.len(),
{
    let rest = batch.drop_last();
    let mid = state.with_batch(account_id, folder_id, rest);
    let after = state.with_batch(account_id, folder_id, batch);
    let last_key = (folder_id, batch.last().id);
    assert(after == mid.with_envelope(account_id, folder_id, batch.last()));
    lemma_batch_row(state, account_id, folder_id, rest, key);
    lemma_in_batch(folder_id, batch, key);
    if in_batch(folder_id, rest, key) {
        lemma_batch_fresh_row(state, account_id, folder_id, rest, key);
        lemma_in_batch(folder_id, rest, key);
        assert(batch[first_in_batch(folder_id, batch, key)] == rest[first_in_batch(
            folder_id,
            rest,
            key,
        )]);
    } else {
        assert(last_key == key);
        assert(!mid.rows.dom().contains(key));
    }
}

/// Validity-change purge, to its end. When a pass purges a folder and
/// then commits what it fetched, the folder holds a row for each key
/// that was fetched and for no other: nothing that was cached before is
/// left. Each row is new, made from the first envelope fetched with its
/// key, with the flags of the last. The other folders are as they were.
pub proof fn lemma_purged_run_holds_what_was_fetched(
    state: CacheState,
    account_id: i64,
    folder_id: i64,
    batches: Seq<Seq<EnvelopeView>>,
    key: (i64, Seq<char>),
)
    ensures
        ({
            let fetched = joined(batches);
            let end = after_commits(
                state.without_folder(folder_id),
                account_id,
                folder_id,
                batches,
            );
            &&& key.0 == folder_id ==> end.rows.dom().contains(key) == in_batch(
                folder_id,
                fetched,
                key,
            )
            &&& in_batch(folder_id, fetched, key) ==> end.rows.dom().contains(key)
                && end.rows[key] == (EmailView {
                id: end.rows[key].id,
                flags: last_flags(folder_id, fetched, key),
                ..first_row(
                    0,
                    account_id,
                    folder_id,
                    fetched[first_in_batch(folder_id, fetched, key)],
                )
            })
            &&& key.0 != folder_id ==> end.rows.dom().contains(key) == state.rows.dom().contains(key)
                && (state.rows.dom().contains(key) ==> end.rows[key] == state.rows[key])
        }),
{
    let fetched = joined(batches);
    let purged = state.without_folder(folder_id);
    lemma_commits_are_one_batch(purged, account_id, folder_id, batches);
    lemma_purge_empties_folder(state, folder_id);
    lemma_batch_row(purged, account_id, folder_id, fetched, key);
    lemma_in_batch_is_in_folder(folder_id, fetched, key);
    if in_batch(folder_id, fetched, key) {
        lemma_batch_fresh_row(purged, account_id, folder_id, fetched, key);
    }
    if key.0 != folder_id {
        lemma_batch_keeps_other_folders(purged, account_id, folder_id, fetched, key);
    }
}

/// The envelopes of a folder on the server that have the sequence
/// numbers of a window. The envelope with the sequence number `n` stands
/// at the place `n - 1`.
pub open spec fn window_slice(server: Seq<EnvelopeView>, window: Window) -> Seq<EnvelopeView> {
    server.subrange(window.start - 1, window.end as int)
}

/// The batches of a full fetch of a folder with windows of `batch_size`,
/// in the order in which they are fetched.
pub open spec fn full_fetch(server: Seq<EnvelopeView>, batch_size: u32) -> Seq<Seq<EnvelopeView>> {
    let windows = windows_spec(server.len() as u32, batch_size);
    Seq::new(windows.len(), |k: int| window_slice(server, windows[k]))
}

/// What several batches hold together is what each of them holds.
pub proof fn lemma_joined(batches: Seq<Seq<EnvelopeView>>, env: EnvelopeView)
    ensures
        joined(batches).contains(env) == exists|k: int|
            0 <= k < batches.len() && (#[trigger] batches[k]).contains(env),
    decreases batches.len(),
{
    if batches.len() == 0 {
        assert(!joined(batches).contains(env));
    } else {
        let rest = batches.drop_last();
        lemma_joined(rest, env);
        let all = joined(batches);
        if all.contains(env) {
            let m = choose|m: int| 0 <= m < all.len() && all[m] == env;
            if m < joined(rest).len() {
                assert(joined(rest)[m] == env);
                assert(joined(rest).contains(env));
                let k = choose|k: int| 0 <= k < rest.len() && (#[trigger] rest[k]).contains(env);
                assert(batches[k] == rest[k]);
            } else {
                assert(batches.last()[m - joined(rest).len()] == env);
                assert(batches[batches.len() - 1].contains(env));
            }
        }
        if exists|k: int| 0 <= k < batches.len() && (#[trigger] batches[k]).contains(env) {
            let k = choose|k: int| 0 <= k < batches.len() && (#[trigger] batches[k]).contains(env);
            if k < rest.len() {
                assert(rest[k] == batches[k]);
                assert(joined(rest).contains(env));
                let m = choose|m: int| 0 <= m < joined(rest).len() && joined(rest)[m] == env;
                assert(all[m] == env);
            } else {
                let j = choose|j: int| 0 <= j < batches.last().len() && batches.last()[j] == env;
                assert(all[joined(rest).len() + j] == env);
            }
        }
    }
}

/// Each window of a full fetch lies within the folder.
proof fn lemma_window_in_folder(total: u32, batch_size: u32, k: int)
    requires
        batch_size > 0,
        0 <= k < windows_spec(total, batch_size).len(),
    ensures
        1 <= windows_spec(total, batch_size)[k].start <= windows_spec(total, batch_size)[k].end
            <= total,
{
    lemma_windows_partition(total, batch_size);
    lemma_windows_below(total, batch_size);
}

/// The window of a full fetch in which a sequence number lies.
proof fn lemma_window_of(total: u32, batch_size: u32, n: int) -> (k: int)
    requires
        batch_size > 0,
        1 <= n <= total,
    ensures
        0 <= k < windows_spec(total, batch_size).len(),
        windows_spec(total, batch_size)[k].start <= n <= windows_spec(total, batch_size)[k].end,
{
    lemma_windows_cover(total, batch_size, n);
    choose|k: int|
        0 <= k < windows_spec(total, batch_size).len() && (#[trigger] windows_spec(
            total,
            batch_size,
        )[k]).contains(n)
}

/// A full fetch reaches every envelope of the folder, and nothing else:
/// what its batches hold together is what the server holds.
pub proof fn lemma_full_fetch_is_the_folder(
    server: Seq<EnvelopeView>,
    batch_size: u32,
    env: EnvelopeView,
)
    requires
        batch_size > 0,
        server.len() <= u32::MAX,
    ensures
        joined(full_fetch(server, batch_size)).contains(env) == server.contains(env),
{
    let total = server.len() as u32;
    let windows = windows_spec(total, batch_size);
    let batches = full_fetch(server, batch_size);
    lemma_joined(batches, env);
    if server.contains(env) {
        let i = choose|i: int| 0 <= i < server.len() && server[i] == env;
        let k = lemma_window_of(total, batch_size, i + 1);
        lemma_window_in_folder(total, batch_size, k);
        let w = windows[k];
        assert(batches[k] == window_slice(server, w));
        assert(window_slice(server, w)[i + 1 - w.start] == env);
        assert(batches[k].contains(env));
    }
    if joined(batches).contains(env) {
        let k = choose|k: int| 0 <= k < batches.len() && (#[trigger] batches[k]).contains(env);
        let j = choose|j: int| 0 <= j < batches[k].len() && batches[k][j] == env;
        lemma_window_in_folder(total, batch_size, k);
        let w = windows[k];
        assert(batches[k] == window_slice(server, w));
        assert(server[w.start - 1 + j] == env);
    }
}

/// After a complete full fetch every envelope of the folder has a row,
/// whatever the cache held before, and the folder has gained rows for
/// the keys of the server's envelopes only.
pub proof fn lemma_full_run_holds_the_folder(
    state: CacheState,
    account_id: i64,
    folder_id: i64,
    server: Seq<EnvelopeView>,
    batch_size: u32,
)
    requires
        batch_size > 0,
        server.len() <= u32::MAX,
    ensures
        ({
            let end = after_commits(
                state,
                account_id,
                folder_id,
                full_fetch(server, batch_size),
            );
            &&& forall|i: int|
                0 <= i < server.len() ==> end.rows.dom().contains(
                    (folder_id, (#[trigger] server[i]).id),
                )
            &&& forall|key: (i64, Seq<char>)| #[trigger]
                end.rows.dom().contains(key) ==> state.rows.dom().contains(key) || exists|i: int|
                    0 <= i < server.len() && (folder_id, (#[trigger] server[i]).id) == key
        }),
{
    let batches = full_fetch(server, batch_size);
    let fetched = joined(batches);
    let end = after_commits(state, account_id, folder_id, batches);
    lemma_commits_are_one_batch(state, account_id, folder_id, batches);
    assert forall|i: int| 0 <= i < server.len() implies end.rows.dom().contains(
        (folder_id, (#[trigger] server[i]).id),
    ) by {
        let key = (folder_id, server[i].id);
        assert(server.contains(server[i]));
        lemma_full_fetch_is_the_folder(server, batch_size, server[i]);
        let m = choose|m: int| 0 <= m < fetched.len() && fetched[m] == server[i];
        lemma_in_batch(folder_id, fetched, key);
        lemma_batch_row(state, account_id, folder_id, fetched, key);
    }
    assert forall|key: (i64, Seq<char>)| #[trigger]
        end.rows.dom().contains(key) implies state.rows.dom().contains(key) || exists|i: int|
        0 <= i < server.len() && (folder_id, (#[trigger] server[i]).id) == key by {
        lemma_batch_row(state, account_id, folder_id, fetched, key);
        if !state.rows.dom().contains(key) {
            lemma_in_batch(folder_id, fetched, key);
            let m = choose|m: int|
                0 <= m < fetched.len() && (folder_id, (#[trigger] fetched[m]).id) == key;
            assert(fetched.contains(fetched[m]));
            lemma_full_fetch_is_the_folder(server, batch_size, fetched[m]);
            let i = choose|i: int| 0 <= i < server.len() && server[i] == fetched[m];
            assert((folder_id, server[i].id) == key);
        }
    }
}

/// What a driver reports in one step, with the batch of its last fetch.
pub struct RunStep {
    pub event: PassEvent,
    pub batch: Seq<EnvelopeView>,
}

/// A pass together with the envelope cache that its driver writes to,
/// and the batches that were committed in the pass.
pub struct Run {
    pub pass: SyncPass,
    pub cache: CacheState,
    pub commits: Seq<Seq<EnvelopeView>>,
}

/// The events of some steps.
pub open spec fn events_of(steps: Seq<RunStep>) -> Seq<PassEvent> {
    Seq::new(steps.len(), |i: int| steps[i].event)
}

impl Run {
    /// A pass that begins on a cache.
    pub open spec fn start(
        cache: CacheState,
        live: LiveFolderState,
        role: Option<FolderRole>,
        batch_size: u32,
    ) -> Run {
        Run { pass: SyncPass::start_spec(live, role, batch_size), cache, commits: Seq::empty() }
    }

    /// The run after one step of its driver. The cache changes as the
    /// cache writer changes it: when a purge is reported for the purge
    /// that was asked for, the folder is emptied; when a commit is
    /// reported for the commit that was asked for, the batch is written;
    /// and nothing else changes it.
    pub open spec fn next(self, account_id: i64, step: RunStep) -> Run {
        match (self.pass.pending(), step.event) {
            (PassAction::Purge { folder_id }, PassEvent::Purged) => Run {
                pass: self.pass.next(step.event),
                cache: self.cache.without_folder(folder_id),
                commits: self.commits,
            },
            (PassAction::CommitBatch { folder_id }, PassEvent::Committed) => Run {
                pass: self.pass.next(step.event),
                cache: self.cache.with_batch(account_id, folder_id, step.batch),
                commits: self.commits.push(step.batch),
            },
            _ => Run { pass: self.pass.next(step.event), cache: self.cache, commits: self.commits },
        }
    }

    /// The run after some steps of its driver.
    pub open spec fn after(self, account_id: i64, steps: Seq<RunStep>) -> Run
        decreases steps.len(),
    {
        if steps.len() == 0 {
            self
        } else {
            self.after(account_id, steps.drop_last()).next(account_id, steps.last())
        }
    }

    /// The cache that the commits of the pass were written to: the cache
    /// that the pass began on, without the folder where the pass has
    /// purged it.
    pub open spec fn base(self, began_on: CacheState) -> CacheState {
        if self.pass.purged {
            began_on.without_folder(self.pass.folder_id())
        } else {
            began_on
        }
    }
}

/// What a pass makes of the cache. Whatever the driver reports, the pass
/// of a run goes as its events say; it has counted the batches that were
/// committed; and the cache is the one that the pass began on, purged
/// where the pass has purged, with those batches committed one after the
/// other for the folder of the pass.
pub proof fn lemma_run_cache(
    began_on: CacheState,
    account_id: i64,
    live: LiveFolderState,
    role: Option<FolderRole>,
    batch_size: u32,
    steps: Seq<RunStep>,
)
    requires
        batch_size > 0,
    ensures
        ({
            let end = Run::start(began_on, live, role, batch_size).after(account_id, steps);
            &&& end.pass == SyncPass::start_spec(live, role, batch_size).after(events_of(steps))
            &&& end.pass.wf()
            &&& end.commits.len() == end.pass.committed
            &&& end.cache == after_commits(
                end.base(began_on),
                account_id,
                end.pass.folder_id(),
                end.commits,
            )
        }),
    decreases steps.len(),
{
    let start = Run::start(began_on, live, role, batch_size);
    let first = SyncPass::start_spec(live, role, batch_size);
    if steps.len() == 0 {
        assert(events_of(steps).len() == 0);
    } else {
        let shorter = steps.drop_last();
        let step = steps.last();
        lemma_run_cache(began_on, account_id, live, role, batch_size, shorter);
        let prev = start.after(account_id, shorter);
        let end = prev.next(account_id, step);
        assert(events_of(steps).drop_last() == events_of(shorter));
        assert(events_of(steps).last() == step.event);
        lemma_next_keeps_wf(prev.pass, step.event);
        let fid = prev.pass.folder_id();
        match (prev.pass.pending(), step.event) {
            (PassAction::Purge { folder_id }, PassEvent::Purged) => {
                assert(prev.pass.phase is Purging);
                assert(prev.commits.len() == 0);
                assert(end.pass.purged && end.pass.folder_id() == fid);
                assert(end.commits.len() == 0);
            },
            (PassAction::CommitBatch { folder_id }, PassEvent::Committed) => {
                if let PassPhase::CommittingWindow { window } = prev.pass.phase {
                    lemma_window_committed(prev.pass, window);
                }
                assert(end.pass.committed == prev.pass.committed + 1);
                assert(end.pass.purged == prev.pass.purged && end.pass.folder_id() == fid);
                assert(end.commits.drop_last() == prev.commits);
                assert(end.commits.last() == step.batch);
            },
            _ => {
                assert(end.pass.committed == prev.pass.committed);
                if prev.commits.len() > 0 || prev.pass.purged {
                    assert(end.pass.purged == prev.pass.purged && end.pass.folder_id() == fid);
                } else {
                    assert(!end.pass.purged);
                }
            },
        }
    }
}

/// A pass within one validity epoch never purges: when the checkpoint
/// that it finds holds the validity token that the server reports,
/// nothing that is reported to the pass makes it purge.
pub proof fn lemma_same_epoch_never_purges(
    live: LiveFolderState,
    role: Option<FolderRole>,
    batch_size: u32,
    found: FolderCheckpoint,
    events: Seq<PassEvent>,
)
    requires
        batch_size > 0,
        found.validity_token == live.validity_token,
        events.len() > 0,
        events[0] == (PassEvent::CheckpointLoaded { checkpoint: Some(found) }),
    ensures
        ({
            let end = SyncPass::start_spec(live, role, batch_size).after(events);
            !end.purged && !end.plan.wants_purge() && !(end.phase is LoadingCheckpoint)
        }),
    decreases events.len(),
{
    let start = SyncPass::start_spec(live, role, batch_size);
    if events.len() == 1 {
        assert(start.after(events.drop_last()) == start);
    } else {
        let shorter = events.drop_last();
        lemma_same_epoch_never_purges(live, role, batch_size, found, shorter);
        lemma_run_keeps_wf(start, shorter);
    }
}

/// What a pass has committed is in the cache: each key of a committed
/// batch has a row, with the flags of the last envelope committed for
/// it. A key has one row, so no envelope has two.
pub proof fn lemma_run_holds_what_was_committed(
    began_on: CacheState,
    account_id: i64,
    live: LiveFolderState,
    role: Option<FolderRole>,
    batch_size: u32,
    steps: Seq<RunStep>,
    key: (i64, Seq<char>),
)
    requires
        batch_size > 0,
    ensures
        ({
            let end = Run::start(began_on, live, role, batch_size).after(account_id, steps);
            let committed = joined(end.commits);
            in_batch(end.pass.folder_id(), committed, key) ==> end.cache.rows.dom().contains(key)
                && end.cache.rows[key].flags == last_flags(end.pass.folder_id(), committed, key)
        }),
{
    let end = Run::start(began_on, live, role, batch_size).after(account_id, steps);
    lemma_run_cache(began_on, account_id, live, role, batch_size, steps);
    lemma_commits_are_one_batch(
        end.base(began_on),
        account_id,
        end.pass.folder_id(),
        end.commits,
    );
    lemma_batch_row(
        end.base(began_on),
        account_id,
        end.pass.folder_id(),
        joined(end.commits),
        key,
    );
}

/// Idempotence of a pass. When a pass has run on a cache, and a second
/// pass in the same validity epoch commits the same batches for the same
/// folder again, or commits nothing, the cache stays as the first pass
/// left it.
pub proof fn lemma_pass_again_changes_nothing(
    began_on: CacheState,
    account_id: i64,
    live: LiveFolderState,
    role: Option<FolderRole>,
    batch_size: u32,
    steps: Seq<RunStep>,
    found: FolderCheckpoint,
    again: Seq<RunStep>,
)
    requires
        batch_size > 0,
        found.validity_token == live.validity_token,
        again.len() > 0,
        again[0].event == (PassEvent::CheckpointLoaded { checkpoint: Some(found) }),
        ({
            let first = Run::start(began_on, live, role, batch_size).after(account_id, steps);
            let second = Run::start(first.cache, live, role, batch_size).after(account_id, again);
            second.commits.len() == 0 || (second.commits == first.commits
                && second.pass.folder_id() == first.pass.folder_id())
        }),
    ensures
        ({
            let first = Run::start(began_on, live, role, batch_size).after(account_id, steps);
            let second = Run::start(first.cache, live, role, batch_size).after(account_id, again);
            second.cache == first.cache
        }),
{
    let first = Run::start(began_on, live, role, batch_size).after(account_id, steps);
    let second = Run::start(first.cache, live, role, batch_size).after(account_id, again);
    lemma_run_cache(began_on, account_id, live, role, batch_size, steps);
    lemma_run_cache(first.cache, account_id, live, role, batch_size, again);
    assert(events_of(again)[0] == again[0].event);
    lemma_same_epoch_never_purges(live, role, batch_size, found, events_of(again));
    if second.commits.len() > 0 {
        lemma_rerun_changes_nothing(
            first.base(began_on),
            account_id,
            first.pass.folder_id(),
            first.commits,
        );
    }
}

/// Partial-failure safety, of two passes. When a pass was given up
/// after some of its batches were committed, and the next pass over the
/// folder commits those batches again and the rest, neither of them
/// purging, the cache is what one complete pass would have made of the
/// cache that the first began on.
pub proof fn lemma_pass_after_failed_pass(
    began_on: CacheState,
    account_id: i64,
    live: LiveFolderState,
    role: Option<FolderRole>,
    batch_size: u32,
    steps: Seq<RunStep>,
    again: Seq<RunStep>,
    n: int,
)
    requires
        batch_size > 0,
        ({
            let first = Run::start(began_on, live, role, batch_size).after(account_id, steps);
            let second = Run::start(first.cache, live, role, batch_size).after(account_id, again);
            &&& !first.pass.purged
            &&& !second.pass.purged
            &&& first.commits.len() > 0 ==> second.pass.folder_id() == first.pass.folder_id()
            &&& 0 <= n <= second.commits.len()
            &&& first.commits == second.commits.take(n)
        }),
    ensures
        ({
            let first = Run::start(began_on, live, role, batch_size).after(account_id, steps);
            let second = Run::start(first.cache, live, role, batch_size).after(account_id, again);
            second.cache == after_commits(
                began_on,
                account_id,
                second.pass.folder_id(),
                second.commits,
            )
        }),
{
    let first = Run::start(began_on, live, role, batch_size).after(account_id, steps);
    let second = Run::start(first.cache, live, role, batch_size).after(account_id, again);
    lemma_run_cache(began_on, account_id, live, role, batch_size, steps);
    lemma_run_cache(first.cache, account_id, live, role, batch_size, again);
    lemma_rerun_completes_failed_run(
        began_on,
        account_id,
        second.pass.folder_id(),
        second.commits,
        n,
    );
}

/// Validity-change purge, of a whole pass. When a pass that finds a
/// checkpoint with another validity token than the server reports has
/// completed, the folder holds a row for each key that the pass has
/// committed and for no other: nothing that was cached for the folder
/// before is left. Each row is new, made from the first envelope
/// committed with its key, with the flags of the last. The rows of other
/// folders are as they were, and the checkpoint holds the new token.
pub proof fn lemma_validity_change_run(
    began_on: CacheState,
    account_id: i64,
    live: LiveFolderState,
    role: Option<FolderRole>,
    batch_size: u32,
    found: FolderCheckpoint,
    steps: Seq<RunStep>,
    key: (i64, Seq<char>),
)
    requires
        batch_size > 0,
        found.validity_token != live.validity_token,
        steps.len() > 0,
        steps[0].event == (PassEvent::CheckpointLoaded { checkpoint: Some(found) }),
        Run::start(began_on, live, role, batch_size).after(account_id, steps).pass.phase is Done,
    ensures
        ({
            let end = Run::start(began_on, live, role, batch_size).after(account_id, steps);
            let folder_id = found.folder_id;
            let committed = joined(end.commits);
            &&& end.pass.checkpoint matches Some(row) && row.validity_token == live.validity_token
                && row.folder_id == folder_id
            &&& end.cache == after_commits(
                began_on.without_folder(folder_id),
                account_id,
                folder_id,
                end.commits,
            )
            &&& key.0 == folder_id ==> end.cache.rows.dom().contains(key) == in_batch(
                folder_id,
                committed,
                key,
            )
            &&& in_batch(folder_id, committed, key) ==> end.cache.rows[key] == (EmailView {
                id: end.cache.rows[key].id,
                flags: last_flags(folder_id, committed, key),
                ..first_row(
                    0,
                    account_id,
                    folder_id,
                    committed[first_in_batch(folder_id, committed, key)],
                )
            })
            &&& key.0 != folder_id ==> end.cache.rows.dom().contains(key)
                == began_on.rows.dom().contains(key) && (began_on.rows.dom().contains(key)
                ==> end.cache.rows[key] == began_on.rows[key])
        }),
{
    let end = Run::start(began_on, live, role, batch_size).after(account_id, steps);
    lemma_run_cache(began_on, account_id, live, role, batch_size, steps);
    assert(events_of(steps)[0] == steps[0].event);
    lemma_validity_change_purges_first(live, role, batch_size, found, events_of(steps));
    lemma_done_means_saved(live, role, batch_size, events_of(steps));
    assert(end.pass.pending() is Finish);
    assert(end.pass.purged);
    assert(end.pass.folder_id() == found.folder_id);
    lemma_purged_run_holds_what_was_fetched(
        began_on,
        account_id,
        found.folder_id,
        end.commits,
        key,
    );
}

} // verus!
