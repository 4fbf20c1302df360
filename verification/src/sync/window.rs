//! The windows of a full fetch.
//!
//! A full fetch walks the sequence numbers of a folder from the highest
//! down to `1` in windows of a fixed size, so that the newest messages
//! reach the cache first.

use vstd::prelude::*;

verus! {

/// The number of messages that one window of a full fetch holds.
pub const SYNC_BATCH_SIZE: u32 = 500;

/// The sequence numbers `start..=end`.
#[derive(Clone, Copy, Debug, PartialEq, Eq, Structural)]
pub struct Window {
    pub start: u32,
    pub end: u32,
}

impl Window {
    /// The number of sequence numbers in the window.
    pub open spec fn size(self) -> int {
        self.end - self.start + 1
    }

    /// Whether `n` lies in the window.
    pub open spec fn contains(self, n: int) -> bool {
        self.start <= n <= self.end
    }
}

/// The window of at most `batch` sequence numbers that ends at `end`.
pub open spec fn window_ending(end: u32, batch: u32) -> Window {
    Window { start: if end > batch { (end - batch + 1) as u32 } else { 1 }, end }
}

/// The windows of a full fetch of `1..=end`, in the order in which they
/// are fetched: highest first. There is none when the folder is empty or
/// a window may hold nothing.
pub open spec fn windows_spec(end: u32, batch: u32) -> Seq<Window>
    decreases end,
{
    if end == 0 || batch == 0 {
        Seq::empty()
    } else {
        let w = window_ending(end, batch);
        seq![w] + windows_spec((w.start - 1) as u32, batch)
    }
}

/// The window that a full fetch takes next when the sequence numbers
/// `1..=end` are still to be fetched, if there is one.
pub fn next_window(end: u32, batch: u32) -> (w: Option<Window>)
    ensures
        w == if end == 0 || batch == 0 {
            None
        } else {
            Some(window_ending(end, batch))
        },
        w.is_some() == (windows_spec(end, batch).len() > 0),
        w matches Some(win) ==> win == windows_spec(end, batch)[0],
{
    if end == 0 || batch == 0 {
        None
    } else if end > batch {
        Some(Window { start: end - batch + 1, end })
    } else {
        Some(Window { start: 1, end })
    }
}

/// All windows of a full fetch of `1..=total`, highest first.
pub fn full_sync_windows(total: u32, batch: u32) -> (windows: Vec<Window>)
    ensures
        windows@ == windows_spec(total, batch),
{
    let mut windows: Vec<Window> = Vec::new();
    let mut end: u32 = total;
    while end > 0 && batch > 0
        invariant
            windows@ + windows_spec(end, batch) == windows_spec(total, batch),
        decreases end,
    {
        let start: u32 = if end > batch {
            end - batch + 1
        } else {
            1
        };
        let ghost before = windows@;
        windows.push(Window { start, end });
        proof {
            let w = window_ending(end, batch);
            let rest = windows_spec((start - 1) as u32, batch);
            assert(windows_spec(end, batch) == seq![w] + rest);
            assert(before.push(w) + rest == before + (seq![w] + rest));
        }
        end = start - 1;
    }
    proof {
        assert(windows_spec(end, batch) == Seq::<Window>::empty());
        assert(windows@ + Seq::<Window>::empty() == windows@);
    }
    windows
}

/// The windows of a full fetch cut `1..=total` into pieces: each holds
/// between one and `batch` sequence numbers, the first ends at `total`,
/// each next one ends just below the start of the one before, the last
/// starts at `1`, and all but the last hold exactly `batch`.
pub proof fn lemma_windows_partition(total: u32, batch: u32)
    requires
        batch > 0,
    ensures
        (windows_spec(total, batch).len() == 0) == (total == 0),
        total > 0 ==> windows_spec(total, batch)[0].end == total,
        total > 0 ==> windows_spec(total, batch).last().start == 1,
        forall|i: int|
            0 <= i < windows_spec(total, batch).len() ==> {
                let w = #[trigger] windows_spec(total, batch)[i];
                1 <= w.start <= w.end && w.size() <= batch
            },
        forall|i: int|
            0 <= i < windows_spec(total, batch).len() - 1 ==> {
                &&& (#[trigger] windows_spec(total, batch)[i]).size() == batch
                &&& windows_spec(total, batch)[i + 1].end + 1 == windows_spec(total, batch)[i].start
            },
    decreases total,
{
    if total > 0 {
        let w = window_ending(total, batch);
        let below = (w.start - 1) as u32;
        let rest = windows_spec(below, batch);
        let all = windows_spec(total, batch);
        lemma_windows_partition(below, batch);
        assert(all == seq![w] + rest);
        assert(all[0] == w);
        assert forall|i: int| 0 < i < all.len() implies all[i] == rest[i - 1] by {}
        if below > 0 {
            assert(all.last() == rest.last());
        }
        assert forall|i: int| 0 <= i < all.len() implies {
            let x = #[trigger] all[i];
            1 <= x.start <= x.end && x.size() <= batch
        } by {
            if i > 0 {
                assert(all[i] == rest[i - 1]);
            }
        }
        assert forall|i: int| 0 <= i < all.len() - 1 implies {
            &&& (#[trigger] all[i]).size() == batch
            &&& all[i + 1].end + 1 == all[i].start
        } by {
            assert(all[i + 1] == rest[i]);
            if i > 0 {
                assert(all[i] == rest[i - 1]);
            } else {
                assert(rest.len() > 0);
                assert(rest[0].end == below);
            }
        }
    }
}

/// Every sequence number of `1..=total` lies in exactly one window of the
/// full fetch.
pub proof fn lemma_windows_cover(total: u32, batch: u32, n: int)
    requires
        batch > 0,
        1 <= n <= total,
    ensures
        exists|i: int|
            0 <= i < windows_spec(total, batch).len() && (#[trigger] windows_spec(
                total,
                batch,
            )[i]).contains(n),
        forall|i: int, j: int|
            0 <= i < windows_spec(total, batch).len() && 0 <= j < windows_spec(total, batch).len()
                && (#[trigger] windows_spec(total, batch)[i]).contains(n) && (
            #[trigger] windows_spec(total, batch)[j]).contains(n) ==> i == j,
    decreases total,
{
    let w = window_ending(total, batch);
    let below = (w.start - 1) as u32;
    let rest = windows_spec(below, batch);
    let all = windows_spec(total, batch);
    assert(all == seq![w] + rest);
    assert(all[0] == w);
    assert forall|i: int| 0 < i < all.len() implies all[i] == rest[i - 1] by {}
    lemma_windows_below(below, batch);
    if w.contains(n) {
        assert(all[0].contains(n));
        assert forall|i: int, j: int|
            0 <= i < all.len() && 0 <= j < all.len() && (#[trigger] all[i]).contains(n) && (
            #[trigger] all[j]).contains(n) implies i == j by {
            if i > 0 {
                assert(all[i] == rest[i - 1]);
            }
            if j > 0 {
                assert(all[j] == rest[j - 1]);
            }
        }
    } else {
        lemma_windows_cover(below, batch, n);
        let k = choose|k: int| 0 <= k < rest.len() && (#[trigger] rest[k]).contains(n);
        assert(all[k + 1] == rest[k]);
        assert(all[k + 1].contains(n));
        assert forall|i: int, j: int|
            0 <= i < all.len() && 0 <= j < all.len() && (#[trigger] all[i]).contains(n) && (
            #[trigger] all[j]).contains(n) implies i == j by {
            assert(i > 0 && j > 0);
            assert(all[i] == rest[i - 1]);
            assert(all[j] == rest[j - 1]);
        }
    }
}

/// No window of a full fetch of `1..=total` reaches above `total`.
pub proof fn lemma_windows_below(total: u32, batch: u32)
    ensures
        forall|i: int|
            0 <= i < windows_spec(total, batch).len() ==> (#[trigger] windows_spec(
                total,
                batch,
            )[i]).end <= total,
    decreases total,
{
    if total > 0 && batch > 0 {
        let w = window_ending(total, batch);
        let below = (w.start - 1) as u32;
        let rest = windows_spec(below, batch);
        let all = windows_spec(total, batch);
        lemma_windows_below(below, batch);
        assert(all == seq![w] + rest);
        assert forall|i: int| 0 <= i < all.len() implies (#[trigger] all[i]).end <= total by {
            if i > 0 {
                assert(all[i] == rest[i - 1]);
            }
        }
    }
}

} // verus!
