//! The checkpoint store: one checkpoint for each folder of each account,
//! held in memory.

use vstd::prelude::*;
use crate::sync::checkpoint::{FolderCheckpoint, FolderRole};

verus! {

/// The checkpoint of one folder of one account.
#[derive(Debug)]
pub struct FolderEntry {
    pub account_id: i64,
    pub path: String,
    pub checkpoint: FolderCheckpoint,
}

/// What a [`FolderEntry`] holds.
pub struct FolderEntryView {
    pub account_id: i64,
    pub path: Seq<char>,
    pub checkpoint: FolderCheckpoint,
}

impl View for FolderEntry {
    type V = FolderEntryView;

    open spec fn view(&self) -> FolderEntryView {
        FolderEntryView { account_id: self.account_id, path: self.path@, checkpoint: self.checkpoint }
    }
}

/// The place of the first entry for a folder of an account, or the number
/// of entries if there is none.
pub open spec fn place_of(entries: Seq<FolderEntryView>, account_id: i64, path: Seq<char>) -> int
    decreases entries.len(),
{
    if entries.len() == 0 || (entries[0].account_id == account_id && entries[0].path == path) {
        0
    } else {
        1 + place_of(entries.drop_first(), account_id, path)
    }
}

/// The place of the first entry whose checkpoint has the key `folder_id`,
/// or the number of entries if there is none.
pub open spec fn place_of_id(entries: Seq<FolderEntryView>, folder_id: i64) -> int
    decreases entries.len(),
{
    if entries.len() == 0 || entries[0].checkpoint.folder_id == folder_id {
        0
    } else {
        1 + place_of_id(entries.drop_first(), folder_id)
    }
}

/// The checkpoint that is stored for a folder of an account.
pub open spec fn stored(entries: Seq<FolderEntryView>, account_id: i64, path: Seq<char>) -> Option<
    FolderCheckpoint,
> {
    if place_of(entries, account_id, path) < entries.len() {
        Some(entries[place_of(entries, account_id, path)].checkpoint)
    } else {
        None
    }
}

/// A place before which no entry is for the folder, and at which one is
/// or the list ends, is the first place for the folder.
proof fn lemma_is_place_of(entries: Seq<FolderEntryView>, account_id: i64, path: Seq<char>, at: int)
    requires
        0 <= at <= entries.len(),
        forall|i: int|
            0 <= i < at ==> !((#[trigger] entries[i]).account_id == account_id && entries[i].path
                == path),
        at < entries.len() ==> entries[at].account_id == account_id && entries[at].path == path,
    ensures
        place_of(entries, account_id, path) == at,
    decreases entries.len(),
{
    if entries.len() > 0 && at > 0 {
        let rest = entries.drop_first();
        assert(!(entries[0].account_id == account_id && entries[0].path == path));
        assert forall|i: int| 0 <= i < at - 1 implies !((#[trigger] rest[i]).account_id
            == account_id && rest[i].path == path) by {
            assert(rest[i] == entries[i + 1]);
        }
        lemma_is_place_of(rest, account_id, path, at - 1);
    }
}

/// A place before which no entry has the key, and at which one has it or
/// the list ends, is the first place with the key.
proof fn lemma_is_place_of_id(entries: Seq<FolderEntryView>, folder_id: i64, at: int)
    requires
        0 <= at <= entries.len(),
        forall|i: int| 0 <= i < at ==> (#[trigger] entries[i]).checkpoint.folder_id != folder_id,
        at < entries.len() ==> entries[at].checkpoint.folder_id == folder_id,
    ensures
        place_of_id(entries, folder_id) == at,
    decreases entries.len(),
{
    if entries.len() > 0 && at > 0 {
        let rest = entries.drop_first();
        assert(entries[0].checkpoint.folder_id != folder_id);
        assert forall|i: int| 0 <= i < at - 1 implies (#[trigger] rest[i]).checkpoint.folder_id
            != folder_id by {
            assert(rest[i] == entries[i + 1]);
        }
        lemma_is_place_of_id(rest, folder_id, at - 1);
    }
}

/// The checkpoint store.
pub struct CheckpointStore {
    entries: Vec<FolderEntry>,
    next_id: i64,
}

impl CheckpointStore {
    /// The entries, in the order in which they were created.
    pub closed spec fn entries(self) -> Seq<FolderEntryView> {
        Seq::new(self.entries@.len(), |i: int| self.entries@[i]@)
    }

    /// The key that the next new checkpoint gets.
    pub closed spec fn next_key(self) -> int {
        self.next_id as int
    }

    /// An empty store, whose first checkpoint gets the key `1`.
    pub fn new() -> (store: CheckpointStore)
        ensures
            store.entries() == Seq::<FolderEntryView>::empty(),
            store.next_key() == 1,
    {
        let store = CheckpointStore { entries: Vec::new(), next_id: 1 };
        assert(store.entries() =~= Seq::<FolderEntryView>::empty());
        store
    }

    /// The number of checkpoints.
    pub fn len(&self) -> (n: usize)
        ensures
            n == self.entries().len(),
    {
        self.entries.len()
    }

    fn find(&self, account_id: i64, path: &String) -> (at: usize)
        ensures
            at == place_of(self.entries(), account_id, path@),
            at <= self.entries().len(),
    {
        let mut i: usize = 0;
        while i < self.entries.len()
            invariant
                i <= self.entries.len(),
                forall|k: int|
                    0 <= k < i ==> !((#[trigger] self.entries()[k]).account_id == account_id
                        && self.entries()[k].path == path@),
            decreases self.entries.len() - i,
        {
            if self.entries[i].account_id == account_id && self.entries[i].path == *path {
                proof {
                    lemma_is_place_of(self.entries(), account_id, path@, i as int);
                }
                return i;
            }
            i = i + 1;
        }
        proof {
            lemma_is_place_of(self.entries(), account_id, path@, i as int);
        }
        i
    }

    fn find_id(&self, folder_id: i64) -> (at: usize)
        ensures
            at == place_of_id(self.entries(), folder_id),
            at <= self.entries().len(),
    {
        let mut i: usize = 0;
        while i < self.entries.len()
            invariant
                i <= self.entries.len(),
                forall|k: int|
                    0 <= k < i ==> (#[trigger] self.entries()[k]).checkpoint.folder_id
                        != folder_id,
            decreases self.entries.len() - i,
        {
            if self.entries[i].checkpoint.folder_id == folder_id {
                proof {
                    lemma_is_place_of_id(self.entries(), folder_id, i as int);
                }
                return i;
            }
            i = i + 1;
        }
        proof {
            lemma_is_place_of_id(self.entries(), folder_id, i as int);
        }
        i
    }

    /// The checkpoint that is stored for a folder of an account.
    pub fn load(&self, account_id: i64, path: &String) -> (found: Option<FolderCheckpoint>)
        ensures
            found == stored(self.entries(), account_id, path@),
    {
        let at = self.find(account_id, path);
        if at < self.entries.len() {
            Some(self.entries[at].checkpoint)
        } else {
            None
        }
    }

    /// Stores a blank checkpoint for a folder that has none and gives
    /// its key. `None`, and nothing changed, where the folder has a
    /// checkpoint already or no key is left.
    pub fn create(&mut self, account_id: i64, path: &String, role: Option<FolderRole>) -> (key:
        Option<i64>)
        ensures
            key is Some == (stored(old(self).entries(), account_id, path@) is None && old(
                self,
            ).next_key() < i64::MAX),
            match key {
                Some(id) => {
                    &&& id == old(self).next_key()
                    &&& final(self).next_key() == id + 1
                    &&& final(self).entries() == old(self).entries().push(
                        FolderEntryView {
                            account_id,
                            path: path@,
                            checkpoint: FolderCheckpoint::blank_spec(id, role),
                        },
                    )
                },
                None => final(self).entries() == old(self).entries() && final(self).next_key()
                    == old(self).next_key(),
            },
    {
        let at = self.find(account_id, path);
        if at < self.entries.len() || self.next_id == i64::MAX {
            return None;
        }
        let id = self.next_id;
        self.entries.push(
            FolderEntry {
                account_id,
                path: path.clone(),
                checkpoint: FolderCheckpoint::blank(id, role),
            },
        );
        self.next_id = id + 1;
        assert(self.entries() =~= old(self).entries().push(
            FolderEntryView {
                account_id,
                path: path@,
                checkpoint: FolderCheckpoint::blank_spec(id, role),
            },
        ));
        Some(id)
    }

    /// Replaces the checkpoint that has the key of `checkpoint`. `false`,
    /// and nothing changed, where no checkpoint has that key.
    pub fn save(&mut self, checkpoint: FolderCheckpoint) -> (saved: bool)
        ensures
            saved == (place_of_id(old(self).entries(), checkpoint.folder_id) < old(
                self,
            ).entries().len()),
            final(self).next_key() == old(self).next_key(),
            final(self).entries() == if saved {
                let at = place_of_id(old(self).entries(), checkpoint.folder_id);
                old(self).entries().update(
                    at,
                    FolderEntryView { checkpoint, ..old(self).entries()[at] },
                )
            } else {
                old(self).entries()
            },
    {
        let at = self.find_id(checkpoint.folder_id);
        if at < self.entries.len() {
            self.entries[at].checkpoint = checkpoint;
            assert(self.entries() =~= old(self).entries().update(
                at as int,
                FolderEntryView { checkpoint, ..old(self).entries()[at as int] },
            ));
            true
        } else {
            false
        }
    }

    /// Stores a role in the checkpoint with the key `folder_id`. `false`,
    /// and nothing changed, where no checkpoint has that key.
    pub fn update_role(&mut self, folder_id: i64, role: FolderRole) -> (saved: bool)
        ensures
            saved == (place_of_id(old(self).entries(), folder_id) < old(self).entries().len()),
            final(self).next_key() == old(self).next_key(),
            final(self).entries() == if saved {
                let at = place_of_id(old(self).entries(), folder_id);
                old(self).entries().update(
                    at,
                    FolderEntryView {
                        checkpoint: FolderCheckpoint {
                            role: Some(role),
                            ..old(self).entries()[at].checkpoint
                        },
                        ..old(self).entries()[at]
                    },
                )
            } else {
                old(self).entries()
            },
    {
        let at = self.find_id(folder_id);
        if at < self.entries.len() {
            let current = self.entries[at].checkpoint;
            self.entries[at].checkpoint = FolderCheckpoint {
                folder_id: current.folder_id,
                validity_token: current.validity_token,
                next_watermark: current.next_watermark,
                total_count: current.total_count,
                role: Some(role),
            };
            assert(self.entries() =~= old(self).entries().update(
                at as int,
                FolderEntryView {
                    checkpoint: FolderCheckpoint {
                        role: Some(role),
                        ..old(self).entries()[at as int].checkpoint
                    },
                    ..old(self).entries()[at as int]
                },
            ));
            true
        } else {
            false
        }
    }
}

} // verus!
