//! Folder checkpoints and the reconciliation of a checkpoint with the
//! state that the server reports for the folder.

use vstd::prelude::*;

verus! {

/// The special-use role of a folder.
#[derive(Clone, Copy, Debug, PartialEq, Eq, Structural)]
pub enum FolderRole {
    Inbox,
    Sent,
    Drafts,
    Trash,
    Spam,
    Archive,
}

/// What the server reports when a folder is selected.
///
/// A field that the server left out is held as `0`; the server never
/// assigns `0` as a validity token or as a message identifier.
#[derive(Clone, Copy, Debug, PartialEq, Eq, Structural)]
pub struct LiveFolderState {
    pub validity_token: u32,
    pub next_watermark: u32,
    pub total_count: u32,
}

/// The durable record of the last successful pass over one folder.
#[derive(Clone, Copy, Debug, PartialEq, Eq, Structural)]
pub struct FolderCheckpoint {
    pub folder_id: i64,
    pub validity_token: u32,
    pub next_watermark: u32,
    pub total_count: u32,
    pub role: Option<FolderRole>,
}

/// What a pass over one folder has to fetch.
#[derive(Clone, Copy, Debug, PartialEq, Eq, Structural)]
pub enum SyncPlan {
    /// Fetch the sequence numbers `first..=last` (nothing when `last` is
    /// `0`). `create_checkpoint` asks for a checkpoint row to be inserted
    /// before anything else, `purge` for the folder's cached envelopes to
    /// be deleted before the first fetch.
    FullSync { create_checkpoint: bool, purge: bool, first: u32, last: u32 },
    /// Fetch every message whose identifier is `from` or above.
    IncrementalSync { from: u32 },
    /// The cache is up to date.
    NoOp,
}

/// `0` where the server reported no value.
pub open spec fn reported(field: Option<u32>) -> u32 {
    match field {
        Some(v) => v,
        None => 0,
    }
}

/// The plan for a folder whose last checkpoint is `old` (`None` for a
/// folder seen for the first time) and whose state on the server is `live`.
///
/// A checkpoint whose watermark is `0` has never completed a pass, or
/// was taken while the server reported no watermark; with no watermark
/// to continue from the folder is fetched in full.
pub open spec fn reconcile_spec(old: Option<FolderCheckpoint>, live: LiveFolderState) -> SyncPlan {
    match old {
        None => SyncPlan::FullSync {
            create_checkpoint: true,
            purge: false,
            first: 1,
            last: live.total_count,
        },
        Some(cp) => if cp.validity_token != live.validity_token {
            SyncPlan::FullSync {
                create_checkpoint: false,
                purge: true,
                first: 1,
                last: live.total_count,
            }
        } else if cp.next_watermark == 0 {
            SyncPlan::FullSync {
                create_checkpoint: false,
                purge: false,
                first: 1,
                last: live.total_count,
            }
        } else if cp.next_watermark < live.next_watermark {
            SyncPlan::IncrementalSync { from: cp.next_watermark }
        } else {
            SyncPlan::NoOp
        },
    }
}

impl LiveFolderState {
    /// Builds the state from the three values of a folder selection, each
    /// of which the server may leave out.
    pub fn from_select(
        validity_token: Option<u32>,
        next_watermark: Option<u32>,
        total_count: Option<u32>,
    ) -> (live: LiveFolderState)
        ensures
            live.validity_token == reported(validity_token),
            live.next_watermark == reported(next_watermark),
            live.total_count == reported(total_count),
    {
        LiveFolderState {
            validity_token: match validity_token {
                Some(v) => v,
                None => 0,
            },
            next_watermark: match next_watermark {
                Some(v) => v,
                None => 0,
            },
            total_count: match total_count {
                Some(v) => v,
                None => 0,
            },
        }
    }
}

impl FolderCheckpoint {
    /// The checkpoint of a folder that was just created in the cache: no
    /// pass has completed, so it carries no token and no watermark.
    pub open spec fn blank_spec(folder_id: i64, role: Option<FolderRole>) -> FolderCheckpoint {
        FolderCheckpoint { folder_id, validity_token: 0, next_watermark: 0, total_count: 0, role }
    }

    /// The watermark after a pass against `live` has completed. Within
    /// one validity epoch a watermark never goes back: where the server
    /// reports a lower one than the checkpoint holds, or none, the
    /// checkpoint keeps its own. A new epoch begins with the watermark of
    /// the server.
    pub open spec fn advanced_watermark(self, live: LiveFolderState) -> u32 {
        if self.validity_token == live.validity_token && self.next_watermark
            > live.next_watermark {
            self.next_watermark
        } else {
            live.next_watermark
        }
    }

    /// This checkpoint after a pass against `live` has completed.
    pub open spec fn advanced_spec(self, live: LiveFolderState) -> FolderCheckpoint {
        FolderCheckpoint {
            folder_id: self.folder_id,
            validity_token: live.validity_token,
            next_watermark: self.advanced_watermark(live),
            total_count: live.total_count,
            role: self.role,
        }
    }

    pub fn blank(folder_id: i64, role: Option<FolderRole>) -> (cp: FolderCheckpoint)
        ensures
            cp == Self::blank_spec(folder_id, role),
    {
        FolderCheckpoint { folder_id, validity_token: 0, next_watermark: 0, total_count: 0, role }
    }

    pub fn advanced(&self, live: &LiveFolderState) -> (cp: FolderCheckpoint)
        ensures
            cp == self.advanced_spec(*live),
    {
        let next_watermark = if self.validity_token == live.validity_token && self.next_watermark
            > live.next_watermark {
            self.next_watermark
        } else {
            live.next_watermark
        };
        FolderCheckpoint {
            folder_id: self.folder_id,
            validity_token: live.validity_token,
            next_watermark,
            total_count: live.total_count,
            role: self.role,
        }
    }
}

/// Decides what a pass over a folder has to do.
pub fn reconcile(old: Option<&FolderCheckpoint>, live: &LiveFolderState) -> (plan: SyncPlan)
    ensures
        plan == reconcile_spec(
            match old {
                Some(cp) => Some(*cp),
                None => None,
            },
            *live,
        ),
{
    match old {
        None => SyncPlan::FullSync {
            create_checkpoint: true,
            purge: false,
            first: 1,
            last: live.total_count,
        },
        Some(cp) => {
            if cp.validity_token != live.validity_token {
                SyncPlan::FullSync {
                    create_checkpoint: false,
                    purge: true,
                    first: 1,
                    last: live.total_count,
                }
            } else if cp.next_watermark == 0 {
                SyncPlan::FullSync {
                    create_checkpoint: false,
                    purge: false,
                    first: 1,
                    last: live.total_count,
                }
            } else if cp.next_watermark < live.next_watermark {
                SyncPlan::IncrementalSync { from: cp.next_watermark }
            } else {
                SyncPlan::NoOp
            }
        },
    }
}

} // verus!
