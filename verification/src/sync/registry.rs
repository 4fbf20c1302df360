//! The registry of running watch supervisors: at most one for each
//! account.
//!
//! The registry hands out a handle for each supervisor it registers. The
//! caller keeps what it needs to cancel a task under that handle, and
//! cancels the task whose handle the registry gives back.

use vstd::prelude::*;
use std::collections::HashMap;

verus! {

/// What came of registering a supervisor.
#[derive(Clone, Copy, Debug, PartialEq, Eq, Structural)]
pub struct Registration {
    /// The handle of the supervisor that was registered.
    pub handle: u64,
    /// The handle of the supervisor that ran for the account before, and
    /// that is to be cancelled now.
    pub replaced: Option<u64>,
}

/// The running watch supervisors, by account.
pub struct WatchRegistry {
    running: HashMap<i64, u64>,
    next_handle: u64,
}

impl View for WatchRegistry {
    type V = Map<i64, u64>;

    closed spec fn view(&self) -> Map<i64, u64> {
        self.running@
    }
}

impl WatchRegistry {
    /// The handle that the next registration gets.
    pub closed spec fn next_handle(self) -> u64 {
        self.next_handle
    }

    /// An empty registry.
    pub fn new() -> (registry: WatchRegistry)
        ensures
            registry@ == Map::<i64, u64>::empty(),
            registry.next_handle() == 0,
    {
        WatchRegistry { running: HashMap::new(), next_handle: 0 }
    }

    /// The handle of the supervisor that runs for an account.
    pub fn lookup(&self, account_id: i64) -> (handle: Option<u64>)
        ensures
            handle == if self@.dom().contains(account_id) {
                Some(self@[account_id])
            } else {
                None
            },
    {
        broadcast use vstd::std_specs::hash::group_hash_axioms;

        match self.running.get(&account_id) {
            Some(handle) => Some(*handle),
            None => None,
        }
    }

    /// Registers a new supervisor for an account. A supervisor that ran
    /// for the account is replaced: its handle is given back for
    /// cancellation. `None` when the registry has no handle left; then
    /// nothing has changed.
    pub fn register(&mut self, account_id: i64) -> (out: Option<Registration>)
        ensures
            out is Some == (old(self).next_handle() < u64::MAX),
            match out {
                Some(registration) => {
                    &&& registration.handle == old(self).next_handle()
                    &&& registration.replaced == if old(self)@.dom().contains(account_id) {
                        Some(old(self)@[account_id])
                    } else {
                        None
                    }
                    &&& final(self)@ == old(self)@.insert(account_id, registration.handle)
                    &&& final(self).next_handle() == old(self).next_handle() + 1
                },
                None => final(self)@ == old(self)@ && final(self).next_handle() == old(
                    self,
                ).next_handle(),
            },
    {
        broadcast use vstd::std_specs::hash::group_hash_axioms;

        if self.next_handle == u64::MAX {
            return None;
        }
        let handle = self.next_handle;
        let replaced = self.running.insert(account_id, handle);
        self.next_handle = handle + 1;
        Some(Registration { handle, replaced })
    }

    /// Takes the supervisor of an account out of the registry and gives
    /// its handle back for cancellation.
    pub fn remove(&mut self, account_id: i64) -> (handle: Option<u64>)
        ensures
            handle == if old(self)@.dom().contains(account_id) {
                Some(old(self)@[account_id])
            } else {
                None
            },
            final(self)@ == old(self)@.remove(account_id),
            final(self).next_handle() == old(self).next_handle(),
    {
        broadcast use vstd::std_specs::hash::group_hash_axioms;

        self.running.remove(&account_id)
    }

    /// Forgets a supervisor that has ended, unless another one has taken
    /// its place since.
    pub fn finished(&mut self, account_id: i64, handle: u64) -> (removed: bool)
        ensures
            removed == (old(self)@.dom().contains(account_id) && old(self)@[account_id] == handle),
            final(self)@ == if removed {
                old(self)@.remove(account_id)
            } else {
                old(self)@
            },
            final(self).next_handle() == old(self).next_handle(),
    {
        broadcast use vstd::std_specs::hash::group_hash_axioms;

        let current = match self.running.get(&account_id) {
            Some(h) => Some(*h),
            None => None,
        };
        match current {
            Some(h) => {
                if h == handle {
                    self.running.remove(&account_id);
                    true
                } else {
                    false
                }
            },
            None => false,
        }
    }
}

} // verus!
