//! One synchronization pass over one folder, as a state machine.
//!
//! The pass decides; its driver acts. The driver performs the action that
//! the pass is waiting on ([`SyncPass::pending`]), reports what came of it
//! as a [`PassEvent`], and is told by [`SyncPass::step`] what to do next.
//! Fetched envelopes never enter the pass: the driver keeps the batch of
//! the last fetch and writes it to the cache when asked to commit.

use vstd::prelude::*;
use crate::sync::checkpoint::{reconcile, reconcile_spec, FolderCheckpoint, FolderRole, LiveFolderState, SyncPlan};
use crate::sync::window::{next_window, window_ending, windows_spec, Window, SYNC_BATCH_SIZE};

verus! {

/// Where a pass stands: what the driver has been asked to do and has not
/// yet reported on.
#[derive(Clone, Copy, Debug, PartialEq, Eq, Structural)]
pub enum PassPhase {
    LoadingCheckpoint,
    CreatingCheckpoint,
    UpdatingRole,
    Purging,
    FetchingWindow { window: Window },
    CommittingWindow { window: Window },
    FetchingNew { from: u32 },
    CommittingNew,
    SavingCheckpoint,
    Done,
    Failed,
}

/// What the driver reports.
#[derive(Clone, Copy, Debug, PartialEq, Eq, Structural)]
pub enum PassEvent {
    /// The checkpoint of the folder as the cache holds it, `None` for a
    /// folder that the cache does not know.
    CheckpointLoaded { checkpoint: Option<FolderCheckpoint> },
    /// A blank checkpoint row was inserted under this key.
    CheckpointCreated { folder_id: i64 },
    RoleUpdated,
    Purged,
    /// The server answered a fetch with `count` envelopes.
    Fetched { count: usize },
    /// The batch of the last fetch was written in one transaction.
    Committed,
    CheckpointSaved,
    /// The action could not be carried out.
    Failed,
}

/// What the driver is asked to do.
#[allow(inconsistent_fields)]
#[derive(Clone, Copy, Debug, PartialEq, Eq, Structural)]
pub enum PassAction {
    /// Look the folder's checkpoint up.
    LoadCheckpoint,
    /// Insert a blank checkpoint row for the folder, with this role.
    CreateCheckpoint { role: Option<FolderRole> },
    /// Store this role in the folder's checkpoint row.
    UpdateRole { folder_id: i64, role: FolderRole },
    /// Delete every cached envelope of the folder.
    Purge { folder_id: i64 },
    /// Fetch the envelopes with the sequence numbers of the window.
    FetchBySequence { window: Window },
    /// Fetch the envelopes whose identifier is `from` or above.
    FetchFrom { from: u32 },
    /// Write the batch of the last fetch to the cache, in one transaction.
    CommitBatch { folder_id: i64 },
    /// Replace the folder's checkpoint row by this one.
    SaveCheckpoint { checkpoint: FolderCheckpoint },
    /// The pass has completed; nothing is left to do.
    Finish,
    /// The pass was given up; nothing is left to do.
    Abort,
}

/// The answer of a pass to an event.
#[derive(Clone, Copy, Debug, PartialEq, Eq, Structural)]
pub struct Step {
    /// What to do next.
    pub action: PassAction,
    /// Whether listeners are to be told that the cache has changed.
    pub notify: bool,
}

/// A synchronization pass over one folder.
#[derive(Clone, Copy, Debug)]
pub struct SyncPass {
    /// The state of the folder on the server, as selected for this pass.
    pub live: LiveFolderState,
    /// The role that the caller knows the folder to have, if any.
    pub role: Option<FolderRole>,
    /// The size of a window of a full fetch.
    pub batch_size: u32,
    pub phase: PassPhase,
    /// The checkpoint as it was when the pass began.
    pub before: Option<FolderCheckpoint>,
    /// The checkpoint row as the cache holds it now.
    pub checkpoint: Option<FolderCheckpoint>,
    pub plan: SyncPlan,
    /// Whether the folder's envelopes were deleted in this pass.
    pub purged: bool,
    /// The number of batches committed in this pass.
    pub committed: u32,
}

impl SyncPlan {
    /// Whether the plan asks for the cached envelopes to be deleted.
    pub open spec fn wants_purge(self) -> bool {
        self matches SyncPlan::FullSync { purge, .. } && purge
    }
}

impl FolderCheckpoint {
    /// Whether two checkpoints agree in what a pass advances: validity
    /// token, watermark and count.
    pub open spec fn same_progress(self, other: FolderCheckpoint) -> bool {
        &&& self.validity_token == other.validity_token
        &&& self.next_watermark == other.next_watermark
        &&& self.total_count == other.total_count
    }
}

impl SyncPass {
    /// A pass that has not yet seen the folder's checkpoint.
    pub open spec fn start_spec(
        live: LiveFolderState,
        role: Option<FolderRole>,
        batch_size: u32,
    ) -> SyncPass {
        SyncPass {
            live,
            role,
            batch_size,
            phase: PassPhase::LoadingCheckpoint,
            before: None,
            checkpoint: None,
            plan: SyncPlan::NoOp,
            purged: false,
            committed: 0,
        }
    }

    /// The key of the folder's checkpoint row, once it is known.
    pub open spec fn folder_id(self) -> i64 {
        match self.checkpoint {
            Some(row) => row.folder_id,
            None => 0,
        }
    }

    /// The checkpoint that a completed pass leaves behind: the row as it
    /// stands, with the server's token and count, and with the server's
    /// watermark unless the row holds a higher one of the same epoch.
    pub open spec fn target(self) -> FolderCheckpoint {
        match self.checkpoint {
            Some(row) => row.advanced_spec(self.live),
            None => FolderCheckpoint::blank_spec(0, self.role).advanced_spec(self.live),
        }
    }

    /// What the driver is to do in the current phase.
    pub open spec fn pending(self) -> PassAction {
        match self.phase {
            PassPhase::LoadingCheckpoint => PassAction::LoadCheckpoint,
            PassPhase::CreatingCheckpoint => PassAction::CreateCheckpoint { role: self.role },
            PassPhase::UpdatingRole => match self.role {
                Some(role) => PassAction::UpdateRole { folder_id: self.folder_id(), role },
                None => PassAction::Abort,
            },
            PassPhase::Purging => PassAction::Purge { folder_id: self.folder_id() },
            PassPhase::FetchingWindow { window } => PassAction::FetchBySequence { window },
            PassPhase::CommittingWindow { window } => PassAction::CommitBatch {
                folder_id: self.folder_id(),
            },
            PassPhase::FetchingNew { from } => PassAction::FetchFrom { from },
            PassPhase::CommittingNew => PassAction::CommitBatch { folder_id: self.folder_id() },
            PassPhase::SavingCheckpoint => PassAction::SaveCheckpoint { checkpoint: self.target() },
            PassPhase::Done => PassAction::Finish,
            PassPhase::Failed => PassAction::Abort,
        }
    }

    /// Whether the pass has come to its end.
    pub open spec fn is_over(self) -> bool {
        self.phase is Done || self.phase is Failed
    }

    /// The pass in another phase.
    pub open spec fn at(self, phase: PassPhase) -> SyncPass {
        SyncPass { phase, ..self }
    }

    /// The pass once the windows `end + 1..` are behind it: it fetches the
    /// window that ends at `end`, or saves the checkpoint when none is left.
    pub open spec fn fetch_down_from(self, end: u32) -> SyncPass {
        if end == 0 || self.batch_size == 0 {
            self.at(PassPhase::SavingCheckpoint)
        } else {
            self.at(PassPhase::FetchingWindow { window: window_ending(end, self.batch_size) })
        }
    }

    /// The pass once checkpoint row and cache are ready for the plan.
    pub open spec fn begin_fetch(self) -> SyncPass {
        match self.plan {
            SyncPlan::FullSync { last, .. } => self.fetch_down_from(last),
            SyncPlan::IncrementalSync { from } => self.at(PassPhase::FetchingNew { from }),
            SyncPlan::NoOp => self.at(PassPhase::SavingCheckpoint),
        }
    }

    /// The pass once the checkpoint row exists with the right role.
    pub open spec fn after_setup(self) -> SyncPass {
        if self.plan.wants_purge() {
            self.at(PassPhase::Purging)
        } else {
            self.begin_fetch()
        }
    }

    /// The pass once the checkpoint lookup has answered.
    pub open spec fn loaded(self, found: Option<FolderCheckpoint>) -> SyncPass {
        let planned = SyncPass { before: found, plan: reconcile_spec(found, self.live), ..self };
        match found {
            None => planned.at(PassPhase::CreatingCheckpoint),
            Some(row) => match self.role {
                Some(role) if row.role != Some(role) => SyncPass {
                    checkpoint: Some(FolderCheckpoint { role: Some(role), ..row }),
                    ..planned
                }.at(PassPhase::UpdatingRole),
                _ => SyncPass { checkpoint: Some(row), ..planned }.after_setup(),
            },
        }
    }

    /// The number of committed batches after one more.
    pub open spec fn one_more(self) -> u32 {
        if self.committed < u32::MAX {
            (self.committed + 1) as u32
        } else {
            self.committed
        }
    }

    /// The state that follows when the driver reports `event`.
    ///
    /// A pass that is over stays as it is. A failure, or an event that
    /// does not answer the pending action, gives the pass up.
    pub open spec fn next(self, event: PassEvent) -> SyncPass {
        match (self.phase, event) {
            (PassPhase::Done, _) => self,
            (PassPhase::Failed, _) => self,
            (PassPhase::LoadingCheckpoint, PassEvent::CheckpointLoaded { checkpoint }) => self.loaded(
                checkpoint,
            ),
            (PassPhase::CreatingCheckpoint, PassEvent::CheckpointCreated { folder_id }) => SyncPass {
                checkpoint: Some(FolderCheckpoint::blank_spec(folder_id, self.role)),
                ..self
            }.after_setup(),
            (PassPhase::UpdatingRole, PassEvent::RoleUpdated) => self.after_setup(),
            (PassPhase::Purging, PassEvent::Purged) => SyncPass { purged: true, ..self }.begin_fetch(),
            (PassPhase::FetchingWindow { window }, PassEvent::Fetched { count }) => if count == 0 {
                self.at(PassPhase::SavingCheckpoint)
            } else {
                self.at(PassPhase::CommittingWindow { window })
            },
            (PassPhase::CommittingWindow { window }, PassEvent::Committed) => SyncPass {
                committed: self.one_more(),
                ..self
            }.fetch_down_from(if window.start > 0 { (window.start - 1) as u32 } else { 0 }),
            (PassPhase::FetchingNew { from }, PassEvent::Fetched { count }) => if count == 0 {
                self.at(PassPhase::SavingCheckpoint)
            } else {
                self.at(PassPhase::CommittingNew)
            },
            (PassPhase::CommittingNew, PassEvent::Committed) => SyncPass {
                committed: self.one_more(),
                ..self
            }.at(PassPhase::SavingCheckpoint),
            (PassPhase::SavingCheckpoint, PassEvent::CheckpointSaved) => SyncPass {
                checkpoint: Some(self.target()),
                ..self
            }.at(PassPhase::Done),
            _ => self.at(PassPhase::Failed),
        }
    }

    /// The state of the pass after the driver has reported `events`, one
    /// after the other.
    pub open spec fn after(self, events: Seq<PassEvent>) -> SyncPass
        decreases events.len(),
    {
        if events.len() == 0 {
            self
        } else {
            self.after(events.drop_last()).next(events.last())
        }
    }

    /// Whether listeners are told of a change when `event` arrives: after
    /// each committed batch, and when the pass completes.
    pub open spec fn notifies(self, event: PassEvent) -> bool {
        match (self.phase, event) {
            (PassPhase::CommittingWindow { .. }, PassEvent::Committed) => true,
            (PassPhase::CommittingNew, PassEvent::Committed) => true,
            (PassPhase::SavingCheckpoint, PassEvent::CheckpointSaved) => true,
            _ => false,
        }
    }

    /// The progress that the checkpoint row holds while the pass runs:
    /// that of the checkpoint the pass began with, or none.
    pub open spec fn progress_before(self) -> FolderCheckpoint {
        match self.before {
            Some(cp) => cp,
            None => FolderCheckpoint::blank_spec(0, None),
        }
    }

    /// What holds of every pass that began with [`SyncPass::new`] or
    /// [`SyncPass::with_batch_size`] and was moved by [`SyncPass::step`]
    /// alone. Among the rest: until the pass is done the checkpoint row
    /// keeps the progress it had before the pass; where a purge is
    /// planned nothing is fetched, committed or saved before the purge
    /// was reported; and a full fetch takes the windows of its plan in
    /// their order, one for each committed batch.
    pub open spec fn wf(self) -> bool {
        &&& self.batch_size > 0
        &&& self.phase is LoadingCheckpoint ==> {
            &&& self.before is None
            &&& self.checkpoint is None
            &&& !self.purged
            &&& self.committed == 0
        }
        &&& !(self.phase is LoadingCheckpoint) && !(self.phase is Failed) ==> self.plan
            == reconcile_spec(self.before, self.live)
        &&& self.purged ==> self.plan.wants_purge()
        &&& self.phase is CreatingCheckpoint ==> self.before is None && self.checkpoint is None
            && self.committed == 0
        &&& self.phase is UpdatingRole ==> {
            &&& self.before is Some
            &&& self.role is Some
            &&& self.before->0.role != self.role
            &&& self.checkpoint == Some(
                FolderCheckpoint { role: self.role, ..self.before->0 },
            )
            &&& !self.purged
            &&& self.committed == 0
        }
        &&& self.phase is Purging ==> self.plan.wants_purge() && !self.purged && self.committed
            == 0
        &&& self.prepared() ==> self.checkpoint is Some
        &&& self.checkpoint is Some && self.before is Some ==> self.checkpoint->0.folder_id
            == self.before->0.folder_id
        &&& self.checkpoint is Some && !(self.phase is Done) ==> self.checkpoint->0.same_progress(
            self.progress_before(),
        )
        &&& self.working() ==> (self.plan.wants_purge() ==> self.purged)
        &&& self.phase matches PassPhase::FetchingWindow { window } ==> self.at_window(window)
        &&& self.phase matches PassPhase::CommittingWindow { window } ==> self.at_window(window)
        &&& self.phase matches PassPhase::FetchingNew { from } ==> self.plan
            == (SyncPlan::IncrementalSync { from }) && self.committed == 0
        &&& self.phase is CommittingNew ==> self.plan is IncrementalSync && self.committed == 0
        &&& self.phase is Done ==> self.checkpoint->0.same_progress(
            self.progress_before().advanced_spec(self.live),
        )
    }

    /// Whether the checkpoint row is known to exist.
    pub open spec fn prepared(self) -> bool {
        self.phase is Purging || self.working() || self.phase is Done
    }

    /// Whether the pass is fetching, committing or saving the checkpoint.
    pub open spec fn working(self) -> bool {
        ||| self.phase is FetchingWindow
        ||| self.phase is CommittingWindow
        ||| self.phase is FetchingNew
        ||| self.phase is CommittingNew
        ||| self.phase is SavingCheckpoint
    }

    /// A full fetch stands at `window` when every window above it has been
    /// committed, and no other: `window` is the one that follows them in
    /// the plan.
    pub open spec fn at_window(self, window: Window) -> bool {
        &&& self.plan matches SyncPlan::FullSync { last, .. }
        &&& self.committed < windows_spec(last, self.batch_size).len()
        &&& windows_spec(last, self.batch_size)[self.committed as int] == window
        &&& windows_spec(last, self.batch_size).skip(self.committed as int) == windows_spec(
            window.end,
            self.batch_size,
        )
    }

    /// Begins a pass over a folder whose state on the server is `live`,
    /// with windows of [`SYNC_BATCH_SIZE`]. The driver starts by looking
    /// the checkpoint up.
    pub fn new(live: LiveFolderState, role: Option<FolderRole>) -> (pass: SyncPass)
        ensures
            pass == Self::start_spec(live, role, SYNC_BATCH_SIZE),
            pass.wf(),
            pass.pending() == PassAction::LoadCheckpoint,
    {
        SyncPass {
            live,
            role,
            batch_size: SYNC_BATCH_SIZE,
            phase: PassPhase::LoadingCheckpoint,
            before: None,
            checkpoint: None,
            plan: SyncPlan::NoOp,
            purged: false,
            committed: 0,
        }
    }

    /// Begins a pass with windows of `batch_size`, which must not be `0`.
    pub fn with_batch_size(
        live: LiveFolderState,
        role: Option<FolderRole>,
        batch_size: u32,
    ) -> (pass: Option<SyncPass>)
        ensures
            pass.is_some() == (batch_size > 0),
            pass matches Some(p) ==> p == Self::start_spec(live, role, batch_size) && p.wf(),
    {
        if batch_size == 0 {
            None
        } else {
            Some(
                SyncPass {
                    live,
                    role,
                    batch_size,
                    phase: PassPhase::LoadingCheckpoint,
                    before: None,
                    checkpoint: None,
                    plan: SyncPlan::NoOp,
                    purged: false,
                    committed: 0,
                },
            )
        }
    }

    /// The action that the pass is waiting on.
    pub fn pending_action(&self) -> (action: PassAction)
        ensures
            action == self.pending(),
    {
        let folder_id: i64 = match self.checkpoint {
            Some(row) => row.folder_id,
            None => 0,
        };
        match self.phase {
            PassPhase::LoadingCheckpoint => PassAction::LoadCheckpoint,
            PassPhase::CreatingCheckpoint => PassAction::CreateCheckpoint { role: self.role },
            PassPhase::UpdatingRole => match self.role {
                Some(role) => PassAction::UpdateRole { folder_id, role },
                None => PassAction::Abort,
            },
            PassPhase::Purging => PassAction::Purge { folder_id },
            PassPhase::FetchingWindow { window } => PassAction::FetchBySequence { window },
            PassPhase::CommittingWindow { window } => PassAction::CommitBatch { folder_id },
            PassPhase::FetchingNew { from } => PassAction::FetchFrom { from },
            PassPhase::CommittingNew => PassAction::CommitBatch { folder_id },
            PassPhase::SavingCheckpoint => PassAction::SaveCheckpoint {
                checkpoint: self.target_checkpoint(),
            },
            PassPhase::Done => PassAction::Finish,
            PassPhase::Failed => PassAction::Abort,
        }
    }

    /// The checkpoint that the pass leaves behind when it completes.
    pub fn target_checkpoint(&self) -> (cp: FolderCheckpoint)
        ensures
            cp == self.target(),
    {
        match self.checkpoint {
            Some(row) => row.advanced(&self.live),
            None => FolderCheckpoint::blank(0, self.role).advanced(&self.live),
        }
    }

    /// Whether the pass has completed or was given up.
    pub fn finished(&self) -> (over: bool)
        ensures
            over == self.is_over(),
    {
        match self.phase {
            PassPhase::Done => true,
            PassPhase::Failed => true,
            _ => false,
        }
    }

    /// Whether the pass has completed: every batch of the plan is in the
    /// cache and the checkpoint is saved.
    pub fn succeeded(&self) -> (done: bool)
        ensures
            done == (self.phase is Done),
    {
        match self.phase {
            PassPhase::Done => true,
            _ => false,
        }
    }

    fn go_fetch_down_from(&mut self, end: u32)
        ensures
            *final(self) == old(self).fetch_down_from(end),
    {
        match next_window(end, self.batch_size) {
            Some(window) => {
                self.phase = PassPhase::FetchingWindow { window };
            },
            None => {
                self.phase = PassPhase::SavingCheckpoint;
            },
        }
    }

    fn go_begin_fetch(&mut self)
        ensures
            *final(self) == old(self).begin_fetch(),
    {
        match self.plan {
            SyncPlan::FullSync { create_checkpoint, purge, first, last } => {
                self.go_fetch_down_from(last);
            },
            SyncPlan::IncrementalSync { from } => {
                self.phase = PassPhase::FetchingNew { from };
            },
            SyncPlan::NoOp => {
                self.phase = PassPhase::SavingCheckpoint;
            },
        }
    }

    fn go_after_setup(&mut self)
        ensures
            *final(self) == old(self).after_setup(),
    {
        let purge = match self.plan {
            SyncPlan::FullSync { create_checkpoint, purge, first, last } => purge,
            _ => false,
        };
        if purge {
            self.phase = PassPhase::Purging;
        } else {
            self.go_begin_fetch();
        }
    }

    fn go_loaded(&mut self, found: Option<FolderCheckpoint>)
        ensures
            *final(self) == old(self).loaded(found),
    {
        self.before = found;
        self.plan = reconcile(found.as_ref(), &self.live);
        match found {
            None => {
                self.phase = PassPhase::CreatingCheckpoint;
            },
            Some(row) => {
                let stale = match (self.role, row.role) {
                    (Some(wanted), Some(stored)) => wanted != stored,
                    (Some(wanted), None) => true,
                    (None, _) => false,
                };
                if stale {
                    self.checkpoint = Some(
                        FolderCheckpoint {
                            folder_id: row.folder_id,
                            validity_token: row.validity_token,
                            next_watermark: row.next_watermark,
                            total_count: row.total_count,
                            role: self.role,
                        },
                    );
                    self.phase = PassPhase::UpdatingRole;
                } else {
                    self.checkpoint = Some(row);
                    self.go_after_setup();
                }
            },
        }
    }

    fn count_batch(&mut self)
        ensures
            *final(self) == (SyncPass { committed: old(self).one_more(), ..*old(self) }),
    {
        if self.committed < u32::MAX {
            self.committed = self.committed + 1;
        }
    }

    /// Takes the driver's report on the pending action and says what to
    /// do next.
    ///
    /// The pass moves as [`SyncPass::next`] says. Whatever the event, a
    /// pass that was begun by this library keeps [`SyncPass::wf`]; the
    /// checkpoint row keeps the progress it had before the pass until the
    /// pass is done; and nothing is fetched or committed after a purge
    /// was planned and before it was reported.
    pub fn step(&mut self, event: PassEvent) -> (step: Step)
        ensures
            *final(self) == old(self).next(event),
            step.action == final(self).pending(),
            step.notify == old(self).notifies(event),
            old(self).wf() ==> final(self).wf(),
            event is Failed && !old(self).is_over() ==> final(self).phase is Failed,
            final(self).phase is Done ==> old(self).phase is Done || (old(self).phase
                is SavingCheckpoint && event is CheckpointSaved),
    {
        let mut notify = false;
        match (self.phase, event) {
            (PassPhase::Done, _) => {},
            (PassPhase::Failed, _) => {},
            (PassPhase::LoadingCheckpoint, PassEvent::CheckpointLoaded { checkpoint }) => {
                self.go_loaded(checkpoint);
            },
            (PassPhase::CreatingCheckpoint, PassEvent::CheckpointCreated { folder_id }) => {
                self.checkpoint = Some(FolderCheckpoint::blank(folder_id, self.role));
                self.go_after_setup();
            },
            (PassPhase::UpdatingRole, PassEvent::RoleUpdated) => {
                self.go_after_setup();
            },
            (PassPhase::Purging, PassEvent::Purged) => {
                self.purged = true;
                self.go_begin_fetch();
            },
            (PassPhase::FetchingWindow { window }, PassEvent::Fetched { count }) => {
                if count == 0 {
                    self.phase = PassPhase::SavingCheckpoint;
                } else {
                    self.phase = PassPhase::CommittingWindow { window };
                }
            },
            (PassPhase::CommittingWindow { window }, PassEvent::Committed) => {
                notify = true;
                self.count_batch();
                let below: u32 = if window.start > 0 {
                    window.start - 1
                } else {
                    0
                };
                proof {
                    if old(self).wf() {
                        lemma_window_committed(*old(self), window);
                    }
                }
                self.go_fetch_down_from(below);
            },
            (PassPhase::FetchingNew { from }, PassEvent::Fetched { count }) => {
                if count == 0 {
                    self.phase = PassPhase::SavingCheckpoint;
                } else {
                    self.phase = PassPhase::CommittingNew;
                }
            },
            (PassPhase::CommittingNew, PassEvent::Committed) => {
                notify = true;
                self.count_batch();
                self.phase = PassPhase::SavingCheckpoint;
            },
            (PassPhase::SavingCheckpoint, PassEvent::CheckpointSaved) => {
                notify = true;
                self.checkpoint = Some(self.target_checkpoint());
                self.phase = PassPhase::Done;
            },
            _ => {
                self.phase = PassPhase::Failed;
            },
        }
        proof {
            if old(self).wf() {
                lemma_next_keeps_wf(*old(self), event);
            }
        }
        Step { action: self.pending_action(), notify }
    }
}

/// A full fetch has no more windows than the folder has messages.
pub proof fn lemma_windows_len(end: u32, batch: u32)
    ensures
        windows_spec(end, batch).len() <= end,
    decreases end,
{
    if end > 0 && batch > 0 {
        let w = window_ending(end, batch);
        lemma_windows_len((w.start - 1) as u32, batch);
    }
}

/// Once the window that a full fetch stands at is committed, the fetch
/// stands at the window below it, or is through.
pub proof fn lemma_window_committed(pass: SyncPass, window: Window)
    requires
        pass.wf(),
        pass.phase == (PassPhase::CommittingWindow { window }),
    ensures
        window.start >= 1,
        pass.committed < u32::MAX,
        pass.plan matches SyncPlan::FullSync { last, .. } && windows_spec(last, pass.batch_size).skip(
            pass.committed + 1,
        ) == windows_spec((window.start - 1) as u32, pass.batch_size),
{
    let last = pass.plan->last;
    let all = windows_spec(last, pass.batch_size);
    let k = pass.committed as int;
    lemma_windows_len(last, pass.batch_size);
    let tail = windows_spec(window.end, pass.batch_size);
    assert(tail == all.skip(k));
    assert(tail.len() > 0);
    assert(tail[0] == all[k]);
    assert(window.end > 0);
    let w = window_ending(window.end, pass.batch_size);
    let rest = windows_spec((w.start - 1) as u32, pass.batch_size);
    assert(tail == seq![w] + rest);
    assert(tail[0] == w);
    assert(w == window);
    assert(all.skip(k + 1) == all.skip(k).skip(1));
    assert(tail.skip(1) == rest);
}

/// Every step keeps [`SyncPass::wf`].
pub proof fn lemma_next_keeps_wf(pass: SyncPass, event: PassEvent)
    requires
        pass.wf(),
    ensures
        pass.next(event).wf(),
{
    let after = pass.next(event);
    match (pass.phase, event) {
        (PassPhase::LoadingCheckpoint, PassEvent::CheckpointLoaded { checkpoint }) => {
            let plan = reconcile_spec(checkpoint, pass.live);
            if let SyncPlan::FullSync { last, .. } = plan {
                lemma_first_window(last, pass.batch_size);
            }
        },
        (PassPhase::CreatingCheckpoint, PassEvent::CheckpointCreated { folder_id }) => {
            if let SyncPlan::FullSync { last, .. } = pass.plan {
                lemma_first_window(last, pass.batch_size);
            }
        },
        (PassPhase::UpdatingRole, PassEvent::RoleUpdated) => {
            if let SyncPlan::FullSync { last, .. } = pass.plan {
                lemma_first_window(last, pass.batch_size);
            }
        },
        (PassPhase::Purging, PassEvent::Purged) => {
            if let SyncPlan::FullSync { last, .. } = pass.plan {
                lemma_first_window(last, pass.batch_size);
            }
        },
        (PassPhase::CommittingWindow { window }, PassEvent::Committed) => {
            lemma_window_committed(pass, window);
            let below = (window.start - 1) as u32;
            let last = pass.plan->last;
            let all = windows_spec(last, pass.batch_size);
            let rest = windows_spec(below, pass.batch_size);
            assert(all.skip(pass.committed + 1) == rest);
            if below > 0 {
                let w = window_ending(below, pass.batch_size);
                assert(rest == seq![w] + windows_spec((w.start - 1) as u32, pass.batch_size));
                assert(rest[0] == w);
                assert(all.skip(pass.committed + 1)[0] == all[pass.committed + 1]);
            }
        },
        _ => {},
    }
}

/// A full fetch of a folder that is not empty begins at the first window
/// of its plan.
proof fn lemma_first_window(last: u32, batch: u32)
    requires
        batch > 0,
    ensures
        last > 0 ==> windows_spec(last, batch).len() > 0 && windows_spec(last, batch)[0]
            == window_ending(last, batch),
        windows_spec(last, batch).skip(0) == windows_spec(last, batch),
{
    if last > 0 {
        let w = window_ending(last, batch);
        assert(windows_spec(last, batch) == seq![w] + windows_spec((w.start - 1) as u32, batch));
    }
}

} // verus!
