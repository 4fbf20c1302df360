//! The orchestrator: what is set going when the engine starts, and the
//! sweep over all accounts.

use vstd::prelude::*;

verus! {

/// The time between two sweeps over all accounts, in seconds.
pub const SWEEP_INTERVAL_SECS: u64 = 300;

/// What the engine sets going when it starts.
#[derive(Clone, Copy, Debug, PartialEq, Eq, Structural)]
pub enum StartupAction {
    /// Sweep over all accounts and wait for the sweep to end.
    InitialSweep,
    /// Sweep over all accounts again and again, each time after a wait.
    SchedulePeriodicSweep { interval_secs: u64 },
    /// Start the watch supervisor of an account.
    StartWatch { account_id: i64 },
}

/// The supervisors to start: one for each account that has an
/// identifier, in the order of the accounts.
pub open spec fn watches(account_ids: Seq<Option<i64>>) -> Seq<StartupAction>
    decreases account_ids.len(),
{
    if account_ids.len() == 0 {
        Seq::empty()
    } else {
        watches(account_ids.drop_last()) + (match account_ids.last() {
            Some(account_id) => seq![StartupAction::StartWatch { account_id }],
            None => Seq::<StartupAction>::empty(),
        })
    }
}

/// What the engine sets going when it starts, in this order: a first
/// sweep, the periodic sweep every [`SWEEP_INTERVAL_SECS`] seconds, and
/// the supervisors.
pub open spec fn startup_spec(account_ids: Seq<Option<i64>>) -> Seq<StartupAction> {
    seq![
        StartupAction::InitialSweep,
        StartupAction::SchedulePeriodicSweep { interval_secs: SWEEP_INTERVAL_SECS },
    ] + watches(account_ids)
}

/// Lists what the engine sets going when it starts.
pub fn startup_plan(account_ids: &Vec<Option<i64>>) -> (plan: Vec<StartupAction>)
    ensures
        plan@ == startup_spec(account_ids@),
{
    let mut plan: Vec<StartupAction> = Vec::new();
    plan.push(StartupAction::InitialSweep);
    plan.push(StartupAction::SchedulePeriodicSweep { interval_secs: SWEEP_INTERVAL_SECS });
    let ghost head = plan@;
    let mut i: usize = 0;
    while i < account_ids.len()
        invariant
            i <= account_ids.len(),
            plan@ == head + watches(account_ids@.take(i as int)),
        decreases account_ids.len() - i,
    {
        proof {
            let upto = account_ids@.take(i + 1);
            assert(upto.drop_last() == account_ids@.take(i as int));
            assert(upto.last() == account_ids@[i as int]);
        }
        match account_ids[i] {
            Some(account_id) => {
                plan.push(StartupAction::StartWatch { account_id });
            },
            None => {},
        }
        i = i + 1;
    }
    assert(account_ids@.take(account_ids.len() as int) == account_ids@);
    plan
}

/// What is to be done next in a sweep.
#[derive(Clone, Copy, Debug, PartialEq, Eq, Structural)]
pub enum SweepAction {
    /// Synchronize the folders of the account at this place.
    SyncAccount { index: usize },
    /// Every account was tried.
    Done,
}

/// A sweep over all accounts. A failure with one account is counted and
/// does not keep the sweep from the accounts that follow.
#[derive(Clone, Copy, Debug, PartialEq, Eq, Structural)]
pub struct Sweep {
    /// The number of accounts.
    pub accounts: usize,
    /// The number of accounts that were tried.
    pub tried: usize,
    /// The number of accounts with which the pass failed.
    pub failed: usize,
}

impl Sweep {
    /// What holds of every sweep that this library hands out.
    pub open spec fn wf(self) -> bool {
        self.failed <= self.tried <= self.accounts
    }

    /// What is to be done next.
    pub open spec fn pending(self) -> SweepAction {
        if self.tried < self.accounts {
            SweepAction::SyncAccount { index: self.tried }
        } else {
            SweepAction::Done
        }
    }

    /// A sweep over `accounts` accounts.
    pub fn new(accounts: usize) -> (sweep: Sweep)
        ensures
            sweep == (Sweep { accounts, tried: 0, failed: 0 }),
            sweep.wf(),
    {
        Sweep { accounts, tried: 0, failed: 0 }
    }

    /// What is to be done next.
    pub fn pending_action(&self) -> (action: SweepAction)
        ensures
            action == self.pending(),
    {
        if self.tried < self.accounts {
            SweepAction::SyncAccount { index: self.tried }
        } else {
            SweepAction::Done
        }
    }

    /// Takes the outcome of the pass over the account that was due and
    /// says what is to be done next: the account that follows, whether
    /// the pass has failed or not. Once every account was tried, a report
    /// changes nothing.
    pub fn report(&mut self, succeeded: bool) -> (action: SweepAction)
        ensures
            old(self).wf() ==> final(self).wf(),
            final(self).accounts == old(self).accounts,
            old(self).tried < old(self).accounts ==> final(self).tried == old(self).tried + 1,
            old(self).wf() && old(self).tried < old(self).accounts ==> final(self).failed == old(
                self,
            ).failed + if succeeded {
                0int
            } else {
                1int
            },
            old(self).tried >= old(self).accounts ==> *final(self) == *old(self),
            action == final(self).pending(),
    {
        if self.tried < self.accounts {
            self.tried = self.tried + 1;
            if !succeeded && self.failed < self.tried {
                self.failed = self.failed + 1;
            }
        }
        self.pending_action()
    }
}

/// What is to be done next in the pass over the folders of one account.
#[derive(Clone, Copy, Debug, PartialEq, Eq, Structural)]
pub enum FolderSweepAction {
    /// Run a pass over the folder at this place.
    SyncFolder { index: usize },
    /// Every folder was tried; with this many of them the pass failed.
    Done { failed: usize },
}

/// The pass over the folders of one account. A failure with one folder
/// aborts the pass over that folder only: it is counted, and the folders
/// that follow are tried all the same.
#[derive(Clone, Copy, Debug, PartialEq, Eq, Structural)]
pub struct FolderSweep {
    /// The number of folders.
    pub folders: usize,
    /// The number of folders that were tried.
    pub tried: usize,
    /// The number of folders with which the pass failed.
    pub failed: usize,
}

impl FolderSweep {
    /// What holds of every sweep that this library hands out.
    pub open spec fn wf(self) -> bool {
        self.failed <= self.tried <= self.folders
    }

    /// What is to be done next.
    pub open spec fn pending(self) -> FolderSweepAction {
        if self.tried < self.folders {
            FolderSweepAction::SyncFolder { index: self.tried }
        } else {
            FolderSweepAction::Done { failed: self.failed }
        }
    }

    /// The sweep after the outcome of the pass over the folder that was
    /// due has been reported.
    pub open spec fn next(self, succeeded: bool) -> FolderSweep {
        if self.tried < self.folders {
            FolderSweep {
                folders: self.folders,
                tried: (self.tried + 1) as usize,
                failed: if !succeeded && self.failed < self.tried + 1 {
                    (self.failed + 1) as usize
                } else {
                    self.failed
                },
            }
        } else {
            self
        }
    }

    /// The sweep after `outcomes` were reported, one after the other.
    pub open spec fn after(self, outcomes: Seq<bool>) -> FolderSweep
        decreases outcomes.len(),
    {
        if outcomes.len() == 0 {
            self
        } else {
            self.after(outcomes.drop_last()).next(outcomes.last())
        }
    }

    /// A sweep over `folders` folders.
    pub fn new(folders: usize) -> (sweep: FolderSweep)
        ensures
            sweep == (FolderSweep { folders, tried: 0, failed: 0 }),
            sweep.wf(),
    {
        FolderSweep { folders, tried: 0, failed: 0 }
    }

    /// What is to be done next.
    pub fn pending_action(&self) -> (action: FolderSweepAction)
        ensures
            action == self.pending(),
    {
        if self.tried < self.folders {
            FolderSweepAction::SyncFolder { index: self.tried }
        } else {
            FolderSweepAction::Done { failed: self.failed }
        }
    }

    /// Takes the outcome of the pass over the folder that was due and
    /// says what is to be done next: the folder that follows, whether the
    /// pass has failed or not. Once every folder was tried, a report
    /// changes nothing.
    pub fn report(&mut self, succeeded: bool) -> (action: FolderSweepAction)
        ensures
            *final(self) == old(self).next(succeeded),
            old(self).wf() ==> final(self).wf(),
            action == final(self).pending(),
    {
        if self.tried < self.folders {
            self.tried = self.tried + 1;
            if !succeeded && self.failed < self.tried {
                self.failed = self.failed + 1;
            }
        }
        self.pending_action()
    }
}

/// Failure isolation. Whatever the outcomes of the passes over the
/// folders before it, each folder of an account comes to its turn: after
/// `k` reports the folder at the place `k` is due, and after as many
/// reports as there are folders the sweep is done.
pub proof fn lemma_every_folder_is_tried(folders: usize, outcomes: Seq<bool>)
    requires
        outcomes.len() <= folders,
    ensures
        ({
            let sweep = (FolderSweep { folders, tried: 0, failed: 0 }).after(outcomes);
            &&& sweep.wf()
            &&& sweep.folders == folders
            &&& sweep.tried == outcomes.len()
            &&& sweep.failed == outcomes.filter(|ok: bool| !ok).len()
            &&& outcomes.len() < folders ==> sweep.pending() == (FolderSweepAction::SyncFolder {
                index: outcomes.len() as usize,
            })
            &&& outcomes.len() == folders ==> sweep.pending() == (FolderSweepAction::Done {
                failed: sweep.failed,
            })
        }),
    decreases outcomes.len(),
{
    let start = FolderSweep { folders, tried: 0, failed: 0 };
    if outcomes.len() == 0 {
        assert(outcomes.filter(|ok: bool| !ok) =~= Seq::<bool>::empty()) by {
            reveal(Seq::filter);
        }
    } else {
        let shorter = outcomes.drop_last();
        lemma_every_folder_is_tried(folders, shorter);
        assert(outcomes == shorter.push(outcomes.last()));
        assert(outcomes.filter(|ok: bool| !ok) == if !outcomes.last() {
            shorter.filter(|ok: bool| !ok).push(outcomes.last())
        } else {
            shorter.filter(|ok: bool| !ok)
        }) by {
            reveal(Seq::filter);
        }
    }
}

} // verus!
