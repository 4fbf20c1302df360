//! The cache writer: it carries out the actions of a pass that touch the
//! cache, on a checkpoint store and an envelope cache held in memory.

use vstd::prelude::*;
use crate::sync::cache::{batch_view, CacheState, MailCache};
use crate::sync::checkpoint::FolderCheckpoint;
use crate::sync::envelope::Envelope;
use crate::sync::pass::{PassAction, PassEvent};
use crate::sync::store::{place_of_id, stored, CheckpointStore, FolderEntryView};

verus! {

/// Checkpoints and envelopes of all folders.
pub struct CacheWriter {
    checkpoints: CheckpointStore,
    emails: MailCache,
}

impl CacheWriter {
    /// The checkpoints.
    pub closed spec fn checkpoints(self) -> Seq<FolderEntryView> {
        self.checkpoints.entries()
    }

    /// The envelope cache.
    pub closed spec fn emails(self) -> CacheState {
        self.emails@
    }

    /// The key that the next new checkpoint gets.
    pub closed spec fn next_folder_key(self) -> int {
        self.checkpoints.next_key()
    }

    /// What holds of every writer that this library hands out.
    pub closed spec fn wf(self) -> bool {
        self.emails.wf()
    }

    /// A writer on an empty cache. Its first checkpoint and its first row
    /// get the key `1`.
    pub fn new() -> (writer: CacheWriter)
        ensures
            writer.wf(),
            writer.checkpoints() == Seq::<FolderEntryView>::empty(),
            writer.emails().rows == Map::<(i64, Seq<char>), crate::emails::EmailView>::empty(),
            writer.emails().next_id == 1,
            writer.next_folder_key() == 1,
    {
        CacheWriter { checkpoints: CheckpointStore::new(), emails: MailCache::new() }
    }

    /// The checkpoint store.
    pub fn checkpoint_store(&self) -> (store: &CheckpointStore)
        ensures
            store.entries() == self.checkpoints(),
    {
        &self.checkpoints
    }

    /// The envelope cache.
    pub fn mail_cache(&self) -> (cache: &MailCache)
        ensures
            cache@ == self.emails(),
            self.wf() ==> cache.wf(),
    {
        &self.emails
    }

    /// Carries out an action of a pass over the folder `path` of an
    /// account and gives the event to report, or `None` for an action
    /// that is not the cache's to carry out: a fetch, or the end of the
    /// pass. `batch` holds the envelopes of the last fetch.
    ///
    /// Looking a checkpoint up changes nothing. Creating, updating and
    /// saving a checkpoint leave the envelopes as they are; purging and
    /// committing leave the checkpoints as they are. An action that
    /// cannot be carried out gives [`PassEvent::Failed`] and changes
    /// nothing. The key of the next checkpoint is one higher after a
    /// checkpoint was created, and as it was otherwise.
    pub fn perform(
        &mut self,
        account_id: i64,
        path: &String,
        action: PassAction,
        batch: &Vec<Envelope>,
    ) -> (event: Option<PassEvent>)
        requires
            old(self).wf(),
        ensures
            final(self).wf(),
            final(self).next_folder_key() == if event is Some && event->0 is CheckpointCreated {
                old(self).next_folder_key() + 1
            } else {
                old(self).next_folder_key()
            },
            match action {
                PassAction::LoadCheckpoint => {
                    &&& event == Some(
                        PassEvent::CheckpointLoaded {
                            checkpoint: stored(old(self).checkpoints(), account_id, path@),
                        },
                    )
                    &&& final(self).checkpoints() == old(self).checkpoints()
                    &&& final(self).emails() == old(self).emails()
                },
                PassAction::CreateCheckpoint { role } => {
                    &&& final(self).emails() == old(self).emails()
                    &&& if stored(old(self).checkpoints(), account_id, path@) is None && old(
                        self,
                    ).next_folder_key() < i64::MAX {
                        &&& event == Some(
                            PassEvent::CheckpointCreated {
                                folder_id: old(self).next_folder_key() as i64,
                            },
                        )
                        &&& final(self).checkpoints() == old(self).checkpoints().push(
                            FolderEntryView {
                                account_id,
                                path: path@,
                                checkpoint: FolderCheckpoint::blank_spec(
                                    old(self).next_folder_key() as i64,
                                    role,
                                ),
                            },
                        )
                    } else {
                        event == Some(PassEvent::Failed) && final(self).checkpoints() == old(
                            self,
                        ).checkpoints()
                    }
                },
                PassAction::UpdateRole { folder_id, role } => {
                    &&& final(self).emails() == old(self).emails()
                    &&& if place_of_id(old(self).checkpoints(), folder_id) < old(
                        self,
                    ).checkpoints().len() {
                        let at = place_of_id(old(self).checkpoints(), folder_id);
                        &&& event == Some(PassEvent::RoleUpdated)
                        &&& final(self).checkpoints() == old(self).checkpoints().update(
                            at,
                            FolderEntryView {
                                checkpoint: FolderCheckpoint {
                                    role: Some(role),
                                    ..old(self).checkpoints()[at].checkpoint
                                },
                                ..old(self).checkpoints()[at]
                            },
                        )
                    } else {
                        event == Some(PassEvent::Failed) && final(self).checkpoints() == old(
                            self,
                        ).checkpoints()
                    }
                },
                PassAction::Purge { folder_id } => {
                    &&& event == Some(PassEvent::Purged)
                    &&& final(self).checkpoints() == old(self).checkpoints()
                    &&& final(self).emails() == old(self).emails().without_folder(folder_id)
                },
                PassAction::CommitBatch { folder_id } => {
                    &&& final(self).checkpoints() == old(self).checkpoints()
                    &&& if old(self).emails().accepts(folder_id, batch_view(batch@)) {
                        event == Some(PassEvent::Committed) && final(self).emails() == old(
                            self,
                        ).emails().with_batch(account_id, folder_id, batch_view(batch@))
                    } else {
                        event == Some(PassEvent::Failed) && final(self).emails() == old(
                            self,
                        ).emails()
                    }
                },
                PassAction::SaveCheckpoint { checkpoint } => {
                    &&& final(self).emails() == old(self).emails()
                    &&& if place_of_id(old(self).checkpoints(), checkpoint.folder_id) < old(
                        self,
                    ).checkpoints().len() {
                        let at = place_of_id(old(self).checkpoints(), checkpoint.folder_id);
                        &&& event == Some(PassEvent::CheckpointSaved)
                        &&& final(self).checkpoints() == old(self).checkpoints().update(
                            at,
                            FolderEntryView { checkpoint, ..old(self).checkpoints()[at] },
                        )
                    } else {
                        event == Some(PassEvent::Failed) && final(self).checkpoints() == old(
                            self,
                        ).checkpoints()
                    }
                },
                _ => {
                    &&& event is None
                    &&& final(self).checkpoints() == old(self).checkpoints()
                    &&& final(self).emails() == old(self).emails()
                },
            },
    {
        match action {
            PassAction::LoadCheckpoint => Some(
                PassEvent::CheckpointLoaded { checkpoint: self.checkpoints.load(account_id, path) },
            ),
            PassAction::CreateCheckpoint { role } => {
                match self.checkpoints.create(account_id, path, role) {
                    Some(folder_id) => Some(PassEvent::CheckpointCreated { folder_id }),
                    None => Some(PassEvent::Failed),
                }
            },
            PassAction::UpdateRole { folder_id, role } => {
                if self.checkpoints.update_role(folder_id, role) {
                    Some(PassEvent::RoleUpdated)
                } else {
                    Some(PassEvent::Failed)
                }
            },
            PassAction::Purge { folder_id } => {
                self.emails.purge_folder(folder_id);
                Some(PassEvent::Purged)
            },
            PassAction::CommitBatch { folder_id } => {
                match self.emails.commit_batch(account_id, folder_id, batch) {
                    Ok(_) => Some(PassEvent::Committed),
                    Err(_) => Some(PassEvent::Failed),
                }
            },
            PassAction::SaveCheckpoint { checkpoint } => {
                if self.checkpoints.save(checkpoint) {
                    Some(PassEvent::CheckpointSaved)
                } else {
                    Some(PassEvent::Failed)
                }
            },
            _ => None,
        }
    }
}

} // verus!
