//! The envelope cache and the rules by which batches are written to it.
//!
//! A row is known by its folder and the identifier that the server gave
//! the message. Writing an envelope whose row exists changes the flags of
//! that row and nothing else; writing one whose row does not exist adds a
//! row. A batch is written whole or not at all.

use vstd::prelude::*;
use crate::emails::{Email, EmailView};
use crate::sync::envelope::{first_row, flags_text, row_of, Envelope, EnvelopeView};

verus! {

/// Why a batch was not written.
#[derive(Clone, Copy, Debug, PartialEq, Eq, Structural)]
pub enum CacheError {
    /// An envelope of the batch carries a date that cannot be written.
    InvalidDate,
    /// The cache has no row keys left for the batch.
    Full,
}

/// What the cache holds: its rows, by folder and remote identifier, and
/// the key that the next new row gets.
pub struct CacheState {
    pub rows: Map<(i64, Seq<char>), EmailView>,
    pub next_id: int,
}

/// The folder and remote identifier by which a row is known.
pub open spec fn key_of(row: EmailView) -> (i64, Seq<char>) {
    (row.folder_id, row.remote_id)
}

/// Whether the row at `i` is known by `key`.
pub open spec fn has_key(rows: Seq<EmailView>, key: (i64, Seq<char>), i: int) -> bool {
    0 <= i < rows.len() && key_of(rows[i]) == key
}

/// Whether no two rows are known by the same key.
pub open spec fn unique_keys(rows: Seq<EmailView>) -> bool {
    forall|i: int, j: int|
        0 <= i < j < rows.len() ==> key_of(#[trigger] rows[i]) != key_of(#[trigger] rows[j])
}

/// The rows by their keys.
pub open spec fn as_map(rows: Seq<EmailView>) -> Map<(i64, Seq<char>), EmailView> {
    Map::new(
        |key: (i64, Seq<char>)| exists|i: int| has_key(rows, key, i),
        |key: (i64, Seq<char>)| rows[choose|i: int| has_key(rows, key, i)],
    )
}

impl CacheState {
    /// The cache after one envelope of a batch for `folder_id` was
    /// written: the flags of its row are replaced, or a row is added.
    pub open spec fn with_envelope(self, account_id: i64, folder_id: i64, env: EnvelopeView) -> CacheState {
        let key = (folder_id, env.id);
        if self.rows.dom().contains(key) {
            CacheState {
                rows: self.rows.insert(
                    key,
                    EmailView { flags: flags_text(env.flags), ..self.rows[key] },
                ),
                next_id: self.next_id,
            }
        } else {
            CacheState {
                rows: self.rows.insert(
                    key,
                    first_row(self.next_id as i64, account_id, folder_id, env),
                ),
                next_id: self.next_id + 1,
            }
        }
    }

    /// The cache after a batch was written, envelope by envelope.
    pub open spec fn with_batch(self, account_id: i64, folder_id: i64, batch: Seq<EnvelopeView>) -> CacheState
        decreases batch.len(),
    {
        if batch.len() == 0 {
            self
        } else {
            self.with_batch(account_id, folder_id, batch.drop_last()).with_envelope(
                account_id,
                folder_id,
                batch.last(),
            )
        }
    }

    /// The cache without the rows of a folder.
    pub open spec fn without_folder(self, folder_id: i64) -> CacheState {
        CacheState {
            rows: Map::new(
                |key: (i64, Seq<char>)| self.rows.dom().contains(key) && key.0 != folder_id,
                |key: (i64, Seq<char>)| self.rows[key],
            ),
            next_id: self.next_id,
        }
    }

    /// Whether the cache can take a batch for `folder_id`: every date
    /// can be written, and there is a key for every row that the batch
    /// adds. A batch that adds no row needs no key.
    pub open spec fn accepts(self, folder_id: i64, batch: Seq<EnvelopeView>) -> bool {
        &&& forall|i: int| 0 <= i < batch.len() ==> row_writable(#[trigger] batch[i])
        &&& self.with_batch(0, folder_id, batch).next_id <= i64::MAX
    }
}

/// Whether the date of an envelope can be written.
pub open spec fn row_writable(env: EnvelopeView) -> bool {
    row_of(0, 0, 0, env) is Some
}

/// Whether a batch for `folder_id` holds an envelope with the key `key`.
pub open spec fn in_batch(folder_id: i64, batch: Seq<EnvelopeView>, key: (i64, Seq<char>)) -> bool
    decreases batch.len(),
{
    batch.len() > 0 && ((folder_id, batch.last().id) == key || in_batch(
        folder_id,
        batch.drop_last(),
        key,
    ))
}

/// The flags of the last envelope of a batch that has the key `key`.
pub open spec fn last_flags(folder_id: i64, batch: Seq<EnvelopeView>, key: (i64, Seq<char>)) -> Seq<char>
    decreases batch.len(),
{
    if batch.len() == 0 {
        Seq::empty()
    } else if (folder_id, batch.last().id) == key {
        flags_text(batch.last().flags)
    } else {
        last_flags(folder_id, batch.drop_last(), key)
    }
}

/// What writing a batch makes of the row with a given key: a row that
/// was there stays, a key of the batch that had no row gets one, and a
/// row of the batch is left with the flags of the last envelope that the
/// batch holds for it, all else in it as it was.
pub proof fn lemma_batch_row(
    state: CacheState,
    account_id: i64,
    folder_id: i64,
    batch: Seq<EnvelopeView>,
    key: (i64, Seq<char>),
)
    ensures
        ({
            let after = state.with_batch(account_id, folder_id, batch);
            &&& after.rows.dom().contains(key) == (state.rows.dom().contains(key) || in_batch(
                folder_id,
                batch,
                key,
            ))
            &&& in_batch(folder_id, batch, key) ==> after.rows[key].flags == last_flags(
                folder_id,
                batch,
                key,
            )
            &&& state.rows.dom().contains(key) && !in_batch(folder_id, batch, key)
                ==> after.rows[key] == state.rows[key]
            &&& state.rows.dom().contains(key) && in_batch(folder_id, batch, key)
                ==> after.rows[key] == (EmailView {
                flags: last_flags(folder_id, batch, key),
                ..state.rows[key]
            })
        }),
    decreases batch.len(),
{
    if batch.len() > 0 {
        lemma_batch_row(state, account_id, folder_id, batch.drop_last(), key);
        let mid = state.with_batch(account_id, folder_id, batch.drop_last());
        let after = state.with_batch(account_id, folder_id, batch);
        let last_key = (folder_id, batch.last().id);
        assert(after == mid.with_envelope(account_id, folder_id, batch.last()));
        if key != last_key {
            assert(after.rows.dom().contains(key) == mid.rows.dom().contains(key));
            assert(mid.rows.dom().contains(key) ==> after.rows[key] == mid.rows[key]);
        } else {
            assert(after.rows.dom().contains(key));
            assert(after.rows[key].flags == flags_text(batch.last().flags));
        }
    }
}

/// Writing a batch uses up no key when every envelope of it has a row
/// already, and never gives a key back.
pub proof fn lemma_batch_keys(
    state: CacheState,
    account_id: i64,
    folder_id: i64,
    batch: Seq<EnvelopeView>,
)
    ensures
        state.with_batch(account_id, folder_id, batch).next_id >= state.next_id,
        (forall|key: (i64, Seq<char>)| #[trigger]
            in_batch(folder_id, batch, key) ==> state.rows.dom().contains(key))
            ==> state.with_batch(account_id, folder_id, batch).next_id == state.next_id,
    decreases batch.len(),
{
    if batch.len() > 0 {
        lemma_batch_keys(state, account_id, folder_id, batch.drop_last());
        let mid = state.with_batch(account_id, folder_id, batch.drop_last());
        let last_key = (folder_id, batch.last().id);
        if forall|key: (i64, Seq<char>)| #[trigger]
            in_batch(folder_id, batch, key) ==> state.rows.dom().contains(key) {
            assert forall|key: (i64, Seq<char>)| #[trigger]
                in_batch(folder_id, batch.drop_last(), key) implies state.rows.dom().contains(
                key,
            ) by {
                assert(in_batch(folder_id, batch, key));
            }
            assert(in_batch(folder_id, batch, last_key));
            lemma_batch_row(state, account_id, folder_id, batch.drop_last(), last_key);
            assert(mid.rows.dom().contains(last_key));
        }
    }
}

/// Idempotence. Writing a batch a second time changes nothing: no row is
/// added, no key is used up, and every row keeps each of its fields.
pub proof fn lemma_recommit_changes_nothing(
    state: CacheState,
    account_id: i64,
    folder_id: i64,
    batch: Seq<EnvelopeView>,
)
    ensures
        ({
            let once = state.with_batch(account_id, folder_id, batch);
            let twice = once.with_batch(account_id, folder_id, batch);
            twice.rows == once.rows && twice.next_id == once.next_id
        }),
{
    let once = state.with_batch(account_id, folder_id, batch);
    let twice = once.with_batch(account_id, folder_id, batch);
    assert forall|key: (i64, Seq<char>)| #[trigger]
        in_batch(folder_id, batch, key) implies once.rows.dom().contains(key) by {
        lemma_batch_row(state, account_id, folder_id, batch, key);
    }
    lemma_batch_keys(once, account_id, folder_id, batch);
    assert forall|key: (i64, Seq<char>)| #[trigger]
        twice.rows.dom().contains(key) == once.rows.dom().contains(key) by {
        lemma_batch_row(state, account_id, folder_id, batch, key);
        lemma_batch_row(once, account_id, folder_id, batch, key);
    }
    assert forall|key: (i64, Seq<char>)| once.rows.dom().contains(key) implies #[trigger] twice.rows[key]
        == once.rows[key] by {
        lemma_batch_row(state, account_id, folder_id, batch, key);
        lemma_batch_row(once, account_id, folder_id, batch, key);
    }
    assert(twice.rows =~= once.rows);
}

/// The keys that a batch uses up do not depend on the account that it is
/// written for, and the envelopes written first use up no more keys than
/// the whole batch.
pub proof fn lemma_batch_needs_keys(
    state: CacheState,
    account_id: i64,
    other_account_id: i64,
    folder_id: i64,
    batch: Seq<EnvelopeView>,
    k: int,
)
    requires
        0 <= k <= batch.len(),
    ensures
        ({
            let after = state.with_batch(account_id, folder_id, batch);
            let other = state.with_batch(other_account_id, folder_id, batch);
            let part = state.with_batch(account_id, folder_id, batch.take(k));
            &&& after.next_id == other.next_id
            &&& after.rows.dom() == other.rows.dom()
            &&& state.next_id <= part.next_id <= after.next_id
        }),
    decreases batch.len(),
{
    if batch.len() == 0 || k == batch.len() {
        assert(batch.take(k) == batch);
        if batch.len() > 0 {
            lemma_batch_needs_keys(
                state,
                account_id,
                other_account_id,
                folder_id,
                batch.drop_last(),
                k - 1,
            );
        }
    } else {
        lemma_batch_needs_keys(state, account_id, other_account_id, folder_id, batch.drop_last(), k);
        assert(batch.drop_last().take(k) == batch.take(k));
    }
}

/// A batch that was written can be written again: the second time it
/// needs no key.
pub proof fn lemma_recommit_is_accepted(
    state: CacheState,
    account_id: i64,
    folder_id: i64,
    batch: Seq<EnvelopeView>,
)
    requires
        state.accepts(folder_id, batch),
    ensures
        state.with_batch(account_id, folder_id, batch).accepts(folder_id, batch),
{
    let once = state.with_batch(account_id, folder_id, batch);
    lemma_recommit_changes_nothing(state, account_id, folder_id, batch);
    lemma_batch_needs_keys(state, account_id, 0, folder_id, batch, 0);
    lemma_batch_needs_keys(once, account_id, 0, folder_id, batch, 0);
}

/// Writing a batch for one folder leaves the rows of every other folder
/// as they are.
pub proof fn lemma_batch_keeps_other_folders(
    state: CacheState,
    account_id: i64,
    folder_id: i64,
    batch: Seq<EnvelopeView>,
    key: (i64, Seq<char>),
)
    requires
        key.0 != folder_id,
    ensures
        ({
            let after = state.with_batch(account_id, folder_id, batch);
            &&& after.rows.dom().contains(key) == state.rows.dom().contains(key)
            &&& state.rows.dom().contains(key) ==> after.rows[key] == state.rows[key]
        }),
{
    lemma_batch_row(state, account_id, folder_id, batch, key);
    lemma_in_batch_is_in_folder(folder_id, batch, key);
}

/// Every key of a batch lies in the folder that the batch is for.
pub proof fn lemma_in_batch_is_in_folder(
    folder_id: i64,
    batch: Seq<EnvelopeView>,
    key: (i64, Seq<char>),
)
    ensures
        in_batch(folder_id, batch, key) ==> key.0 == folder_id,
    decreases batch.len(),
{
    if batch.len() > 0 {
        lemma_in_batch_is_in_folder(folder_id, batch.drop_last(), key);
    }
}

/// Validity-change purge, in the cache. Once a folder is purged no row of
/// it is left, whatever was cached for it, and the rows of the other
/// folders are as they were.
pub proof fn lemma_purge_empties_folder(state: CacheState, folder_id: i64)
    ensures
        forall|key: (i64, Seq<char>)|
            key.0 == folder_id ==> !state.without_folder(folder_id).rows.dom().contains(key),
        forall|key: (i64, Seq<char>)|
            key.0 != folder_id ==> state.without_folder(folder_id).rows.dom().contains(key)
                == state.rows.dom().contains(key) && (state.rows.dom().contains(key)
                ==> state.without_folder(folder_id).rows[key] == state.rows[key]),
{
}

/// With unique keys, each row is what the map holds under its key.
pub proof fn lemma_row_in_map(rows: Seq<EmailView>, i: int)
    requires
        unique_keys(rows),
        0 <= i < rows.len(),
    ensures
        as_map(rows).dom().contains(key_of(rows[i])),
        as_map(rows)[key_of(rows[i])] == rows[i],
{
    let key = key_of(rows[i]);
    assert(has_key(rows, key, i));
    let j = choose|j: int| has_key(rows, key, j);
    assert(has_key(rows, key, j));
    if i < j {
        assert(key_of(rows[i]) != key_of(rows[j]));
    } else if j < i {
        assert(key_of(rows[j]) != key_of(rows[i]));
    }
}

/// Adding a row under a key that no row has adds it to the map.
proof fn lemma_push_row(rows: Seq<EmailView>, row: EmailView)
    requires
        unique_keys(rows),
        !as_map(rows).dom().contains(key_of(row)),
    ensures
        unique_keys(rows.push(row)),
        as_map(rows.push(row)) == as_map(rows).insert(key_of(row), row),
{
    let more = rows.push(row);
    assert forall|i: int, j: int| 0 <= i < j < more.len() implies key_of(#[trigger] more[i])
        != key_of(#[trigger] more[j]) by {
        if j == rows.len() {
            assert(has_key(rows, key_of(rows[i]), i));
        } else {
            assert(more[i] == rows[i] && more[j] == rows[j]);
        }
    }
    let target = as_map(rows).insert(key_of(row), row);
    assert forall|key: (i64, Seq<char>)| as_map(more).dom().contains(key) == target.dom().contains(
        key,
    ) by {
        if as_map(more).dom().contains(key) {
            let i = choose|i: int| has_key(more, key, i);
            if i < rows.len() {
                assert(has_key(rows, key, i));
            }
        }
        if target.dom().contains(key) {
            if key == key_of(row) {
                assert(has_key(more, key, rows.len() as int));
            } else {
                let i = choose|i: int| has_key(rows, key, i);
                assert(has_key(more, key, i));
            }
        }
    }
    assert forall|key: (i64, Seq<char>)| as_map(more).dom().contains(key) implies as_map(more)[key]
        == target[key] by {
        let i = choose|i: int| has_key(more, key, i);
        lemma_row_in_map(more, i);
        if i < rows.len() {
            lemma_row_in_map(rows, i);
        }
    }
    assert(as_map(more) =~= target);
}

/// Replacing a row by one with the same key replaces it in the map.
proof fn lemma_replace_row(rows: Seq<EmailView>, i: int, row: EmailView)
    requires
        unique_keys(rows),
        0 <= i < rows.len(),
        key_of(row) == key_of(rows[i]),
    ensures
        unique_keys(rows.update(i, row)),
        as_map(rows.update(i, row)) == as_map(rows).insert(key_of(row), row),
{
    let changed = rows.update(i, row);
    assert forall|a: int, b: int| 0 <= a < b < changed.len() implies key_of(#[trigger] changed[a])
        != key_of(#[trigger] changed[b]) by {
        assert(key_of(changed[a]) == key_of(rows[a]));
        assert(key_of(changed[b]) == key_of(rows[b]));
    }
    let target = as_map(rows).insert(key_of(row), row);
    assert forall|key: (i64, Seq<char>)| as_map(changed).dom().contains(key)
        == target.dom().contains(key) by {
        if as_map(changed).dom().contains(key) {
            let a = choose|a: int| has_key(changed, key, a);
            assert(key_of(changed[a]) == key_of(rows[a]));
            assert(has_key(rows, key, a));
        }
        if target.dom().contains(key) {
            if key == key_of(row) {
                assert(has_key(changed, key, i));
            } else {
                let a = choose|a: int| has_key(rows, key, a);
                assert(key_of(changed[a]) == key_of(rows[a]));
                assert(has_key(changed, key, a));
            }
        }
    }
    assert forall|key: (i64, Seq<char>)| as_map(changed).dom().contains(key) implies as_map(
        changed,
    )[key] == target[key] by {
        let a = choose|a: int| has_key(changed, key, a);
        lemma_row_in_map(changed, a);
        if a != i {
            assert(changed[a] == rows[a]);
            lemma_row_in_map(rows, a);
        }
    }
    assert(as_map(changed) =~= target);
}

/// The envelope cache, held in memory.
pub struct MailCache {
    emails: Vec<Email>,
    next_id: i64,
}

impl MailCache {
    /// The rows, in the order in which they were added.
    pub closed spec fn rows(self) -> Seq<EmailView> {
        Seq::new(self.emails@.len(), |i: int| self.emails@[i]@)
    }

    /// The key that the next new row gets.
    pub closed spec fn next_key(self) -> int {
        self.next_id as int
    }

    /// No two rows share folder and remote identifier, and row keys start
    /// at `1`. Every cache that this library hands out is so.
    pub open spec fn wf(self) -> bool {
        unique_keys(self.rows()) && 1 <= self.next_key() <= i64::MAX
    }

    /// The rows of the cache.
    pub fn emails(&self) -> (rows: &Vec<Email>)
        ensures
            rows@.len() == self.rows().len(),
            forall|i: int| 0 <= i < rows@.len() ==> (#[trigger] rows@[i])@ == self.rows()[i],
    {
        &self.emails
    }

    /// An empty cache.
    pub fn new() -> (cache: MailCache)
        ensures
            cache.wf(),
            cache@.rows == Map::<(i64, Seq<char>), EmailView>::empty(),
            cache@.next_id == 1,
    {
        let cache = MailCache { emails: Vec::new(), next_id: 1 };
        assert(cache@.rows =~= Map::<(i64, Seq<char>), EmailView>::empty());
        cache
    }

    /// The place of the row with a given key, if the cache holds one.
    pub fn find(&self, folder_id: i64, remote_id: &String) -> (place: Option<usize>)
        ensures
            match place {
                Some(i) => has_key(self.rows(), (folder_id, remote_id@), i as int),
                None => !self@.rows.dom().contains((folder_id, remote_id@)),
            },
    {
        let mut i: usize = 0;
        while i < self.emails.len()
            invariant
                i <= self.emails.len(),
                forall|j: int| 0 <= j < i ==> !has_key(self.rows(), (folder_id, remote_id@), j),
            decreases self.emails.len() - i,
        {
            if self.emails[i].folder_id == folder_id && self.emails[i].remote_id == *remote_id {
                return Some(i);
            }
            i = i + 1;
        }
        None
    }

    /// The number of rows that the cache holds for a folder.
    pub fn count_in_folder(&self, folder_id: i64) -> (count: usize)
        ensures
            count == self.rows().filter(|row: EmailView| row.folder_id == folder_id).len(),
    {
        let mut count: usize = 0;
        let mut i: usize = 0;
        let ghost in_folder = |row: EmailView| row.folder_id == folder_id;
        while i < self.emails.len()
            invariant
                i <= self.emails.len(),
                count <= i,
                in_folder == (|row: EmailView| row.folder_id == folder_id),
                count == self.rows().take(i as int).filter(in_folder).len(),
            decreases self.emails.len() - i,
        {
            proof {
                let upto = self.rows().take(i as int);
                let next = self.rows().take(i + 1);
                assert(next == upto.push(self.rows()[i as int]));
                assert(next.drop_last() == upto);
                reveal(Seq::filter);
            }
            if self.emails[i].folder_id == folder_id {
                count = count + 1;
            }
            i = i + 1;
        }
        assert(self.rows().take(i as int) == self.rows());
        count
    }

    /// Deletes every row of a folder.
    pub fn purge_folder(&mut self, folder_id: i64)
        requires
            old(self).wf(),
        ensures
            final(self).wf(),
            final(self)@ == old(self)@.without_folder(folder_id),
    {
        let mut kept: Vec<Email> = Vec::new();
        let ghost mut source: Seq<int> = Seq::empty();
        let mut i: usize = 0;
        while i < self.emails.len()
            invariant
                i <= self.emails.len(),
                *self == *old(self),
                source.len() == kept.len(),
                forall|j: int| 0 <= j < source.len() ==> 0 <= #[trigger] source[j] < i,
                forall|j: int, k: int| 0 <= j < k < source.len() ==> source[j] < source[k],
                forall|j: int|
                    0 <= j < kept.len() ==> (#[trigger] kept[j])@ == self.rows()[source[j]]
                        && kept[j].folder_id != folder_id,
                forall|a: int|
                    0 <= a < i && self.rows()[a].folder_id != folder_id ==> exists|j: int|
                        0 <= j < source.len() && #[trigger] source[j] == a,
            decreases self.emails.len() - i,
        {
            if self.emails[i].folder_id != folder_id {
                let ghost before = source;
                kept.push(self.emails[i].clone());
                proof {
                    source = source.push(i as int);
                    assert forall|a: int|
                        0 <= a < i + 1 && self.rows()[a].folder_id != folder_id implies exists|
                        j: int,
                    |
                        0 <= j < source.len() && #[trigger] source[j] == a by {
                        if a < i {
                            let j = choose|j: int| 0 <= j < before.len() && #[trigger] before[j] == a;
                            assert(source[j] == a);
                        } else {
                            assert(source[before.len() as int] == a);
                        }
                    }
                }
            }
            i = i + 1;
        }
        let ghost old_rows = self.rows();
        self.emails = kept;
        proof {
            let new_rows = self.rows();
            assert forall|j: int| 0 <= j < new_rows.len() implies #[trigger] new_rows[j]
                == old_rows[source[j]] by {}
            assert forall|a: int, b: int| 0 <= a < b < new_rows.len() implies key_of(
                #[trigger] new_rows[a],
            ) != key_of(#[trigger] new_rows[b]) by {
                assert(source[a] < source[b]);
                assert(key_of(old_rows[source[a]]) != key_of(old_rows[source[b]]));
            }
            let target = old(self)@.without_folder(folder_id).rows;
            assert forall|key: (i64, Seq<char>)| as_map(new_rows).dom().contains(key)
                == target.dom().contains(key) by {
                if as_map(new_rows).dom().contains(key) {
                    let j = choose|j: int| has_key(new_rows, key, j);
                    assert(has_key(old_rows, key, source[j]));
                }
                if target.dom().contains(key) {
                    let a = choose|a: int| has_key(old_rows, key, a);
                    assert(old_rows[a].folder_id != folder_id);
                    let j = choose|j: int| 0 <= j < source.len() && #[trigger] source[j] == a;
                    assert(has_key(new_rows, key, j));
                }
            }
            assert forall|key: (i64, Seq<char>)| as_map(new_rows).dom().contains(key) implies as_map(
                new_rows,
            )[key] == target[key] by {
                let j = choose|j: int| has_key(new_rows, key, j);
                lemma_row_in_map(new_rows, j);
                lemma_row_in_map(old_rows, source[j]);
            }
            assert(as_map(new_rows) =~= target);
        }
    }

    /// A cache with the same rows and the same next key.
    fn copy(&self) -> (work: MailCache)
        ensures
            work.rows() == self.rows(),
            work.next_key() == self.next_key(),
    {
        let mut emails: Vec<Email> = Vec::new();
        let mut i: usize = 0;
        while i < self.emails.len()
            invariant
                i <= self.emails.len(),
                emails@.len() == i,
                forall|j: int| 0 <= j < i ==> (#[trigger] emails@[j])@ == self.emails@[j]@,
            decreases self.emails.len() - i,
        {
            emails.push(self.emails[i].clone());
            i = i + 1;
        }
        let work = MailCache { emails, next_id: self.next_id };
        assert(work.rows() =~= self.rows());
        work
    }

    /// Writes one envelope whose date can be written, unless it needs a
    /// key and none is left.
    fn write_envelope(&mut self, account_id: i64, folder_id: i64, env: &Envelope) -> (done: bool)
        requires
            old(self).wf(),
            env.writable(),
        ensures
            final(self).wf(),
            done == (old(self)@.with_envelope(account_id, folder_id, env@).next_id <= i64::MAX),
            done ==> final(self)@ == old(self)@.with_envelope(account_id, folder_id, env@),
            !done ==> *final(self) == *old(self),
    {
        let ghost old_rows = self.rows();
        match self.find(folder_id, &env.id) {
            Some(i) => {
                let flags = env.flags_json();
                let ghost row = EmailView { flags: flags@, ..old_rows[i as int] };
                self.emails[i].flags = flags;
                proof {
                    assert(self.rows() =~= old_rows.update(i as int, row));
                    lemma_replace_row(old_rows, i as int, row);
                    lemma_row_in_map(old_rows, i as int);
                }
                true
            },
            None => {
                if self.next_id == i64::MAX {
                    return false;
                }
                match env.to_row(self.next_id, account_id, folder_id) {
                    Some(row) => {
                        let ghost added = row@;
                        self.emails.push(row);
                        self.next_id = self.next_id + 1;
                        proof {
                            assert(self.rows() =~= old_rows.push(added));
                            lemma_push_row(old_rows, added);
                        }
                    },
                    None => {
                        proof {
                            assert(false);
                        }
                    },
                }
                true
            },
        }
    }

    /// Writes a batch of envelopes for a folder, whole or not at all.
    ///
    /// The batch is written when [`CacheState::accepts`] holds of it;
    /// otherwise the cache stays as it is, and the error says whether a
    /// date or the supply of row keys was the reason.
    pub fn commit_batch(&mut self, account_id: i64, folder_id: i64, batch: &Vec<Envelope>) -> (out:
        Result<(), CacheError>)
        requires
            old(self).wf(),
        ensures
            final(self).wf(),
            out is Ok == old(self)@.accepts(folder_id, batch_view(batch@)),
            out is Ok ==> final(self)@ == old(self)@.with_batch(
                account_id,
                folder_id,
                batch_view(batch@),
            ),
            out is Err ==> *final(self) == *old(self),
            out matches Err(e) ==> e == if forall|i: int|
                0 <= i < batch.len() ==> (#[trigger] batch[i]).writable() {
                CacheError::Full
            } else {
                CacheError::InvalidDate
            },
    {
        let ghost envelopes = batch_view(batch@);
        let mut i: usize = 0;
        while i < batch.len()
            invariant
                i <= batch.len(),
                *self == *old(self),
                self.wf(),
                envelopes == batch_view(batch@),
                forall|j: int| 0 <= j < i ==> (#[trigger] batch[j]).writable(),
            decreases batch.len() - i,
        {
            if !batch[i].is_writable() {
                proof {
                    assert(envelopes[i as int] == batch[i as int]@);
                    assert(!row_writable(envelopes[i as int]));
                    assert(!batch[i as int].writable());
                }
                return Err(CacheError::InvalidDate);
            }
            i = i + 1;
        }
        proof {
            assert forall|j: int| 0 <= j < envelopes.len() implies row_writable(
                #[trigger] envelopes[j],
            ) by {
                assert(batch[j].writable());
            }
        }
        let mut work = self.copy();
        let mut k: usize = 0;
        while k < batch.len()
            invariant
                k <= batch.len(),
                *self == *old(self),
                self.wf(),
                work.wf(),
                envelopes == batch_view(batch@),
                forall|j: int| 0 <= j < batch.len() ==> (#[trigger] batch[j]).writable(),
                work@ == old(self)@.with_batch(account_id, folder_id, envelopes.take(k as int)),
            decreases batch.len() - k,
        {
            proof {
                let upto = envelopes.take(k + 1);
                assert(upto.drop_last() == envelopes.take(k as int));
                assert(upto.last() == batch[k as int]@);
            }
            if !work.write_envelope(account_id, folder_id, &batch[k]) {
                proof {
                    lemma_batch_needs_keys(old(self)@, account_id, 0, folder_id, envelopes, k + 1);
                }
                return Err(CacheError::Full);
            }
            k = k + 1;
        }
        proof {
            assert(envelopes.take(k as int) == envelopes);
            lemma_batch_needs_keys(old(self)@, account_id, 0, folder_id, envelopes, 0);
        }
        *self = work;
        Ok(())
    }
}

impl View for MailCache {
    type V = CacheState;

    open spec fn view(&self) -> CacheState {
        CacheState { rows: as_map(self.rows()), next_id: self.next_key() }
    }
}

/// What each envelope of a batch holds.
pub open spec fn batch_view(batch: Seq<Envelope>) -> Seq<EnvelopeView> {
    Seq::new(batch.len(), |i: int| batch[i]@)
}

} // verus!
