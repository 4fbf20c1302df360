//! The directory services that can be asked about a sender, and the order
//! in which the accounts of one are tried.

use vstd::prelude::*;
use crate::text::{eq_ignoring_case, same_ignoring_case};

verus! {

/// Google's people service, asked with the access tokens of the user's
/// Google accounts.
#[derive(Debug)]
pub struct GooglePeopleProvider {
    /// Address and access token of each account.
    pub accounts: Vec<(String, String)>,
}

/// Microsoft's people service. It is not asked yet.
#[derive(Debug)]
pub struct MicrosoftPeopleProvider {
    pub access_tokens: Vec<String>,
}

/// What the caller is asked to do for a lookup.
#[derive(Clone, Copy, Debug, PartialEq, Eq, Structural)]
pub enum LookupAction {
    /// Ask the service for the profile of the account itself.
    LookupSelf { account: usize },
    /// Search the contacts and the directory of the account.
    SearchContacts { account: usize },
    /// The profile of the account is the answer.
    TakeSelf,
    /// The person at the place `pick` of the last search is the answer.
    TakeResult { pick: usize },
    /// Nothing is known of the sender.
    NoData,
    /// The lookup has failed.
    Fail,
}

/// How a search has ended.
#[derive(Clone, Copy, Debug, PartialEq, Eq, Structural)]
pub enum SearchOutcome {
    /// The request could not be sent or was not answered.
    Unreachable,
    /// The service refused the request.
    Refused,
    /// The answer could not be read.
    Unreadable,
    /// The people that were found, and the one that is taken of them.
    People { best: Option<usize> },
}

/// What the caller reports.
#[derive(Clone, Copy, Debug, PartialEq, Eq, Structural)]
pub enum LookupEvent {
    /// Whether the profile of the account could be had.
    SelfAnswered { found: bool },
    SearchAnswered { outcome: SearchOutcome },
}

/// Where a lookup stands.
#[derive(Clone, Copy, Debug, PartialEq, Eq, Structural)]
pub enum LookupPhase {
    AskingSelf { account: usize },
    Searching { account: usize },
    FoundSelf,
    FoundResult { pick: usize },
    NotFound,
    Failed,
}

/// A lookup of one sender with one provider.
#[derive(Debug)]
pub struct Lookup {
    /// For each account of the provider, whether the sender's address is
    /// the account's own.
    pub own: Vec<bool>,
    pub phase: LookupPhase,
}

/// The phase in which the account at `account` is tried first: its own
/// profile where the address is its own, else a search; past the last
/// account nothing is left to try.
pub open spec fn phase_at(own: Seq<bool>, account: int) -> LookupPhase {
    if account >= own.len() || account < 0 {
        LookupPhase::NotFound
    } else if own[account] {
        LookupPhase::AskingSelf { account: account as usize }
    } else {
        LookupPhase::Searching { account: account as usize }
    }
}

/// The phase that follows when an event is reported. A profile that was
/// found is the answer; one that was not leads to a search with the same
/// account. A search that found somebody gives the answer; one whose
/// answer cannot be read fails the lookup; any other leads to the next
/// account. A lookup that has ended stays as it is.
pub open spec fn next_phase(own: Seq<bool>, phase: LookupPhase, event: LookupEvent) -> LookupPhase {
    match (phase, event) {
        (LookupPhase::AskingSelf { account }, LookupEvent::SelfAnswered { found }) => if found {
            LookupPhase::FoundSelf
        } else {
            LookupPhase::Searching { account }
        },
        (LookupPhase::Searching { account }, LookupEvent::SearchAnswered { outcome }) => match outcome {
            SearchOutcome::People { best: Some(pick) } => LookupPhase::FoundResult { pick },
            SearchOutcome::Unreadable => LookupPhase::Failed,
            _ => phase_at(own, account + 1),
        },
        _ => phase,
    }
}

/// What the caller is to do in a phase.
pub open spec fn action_in(phase: LookupPhase) -> LookupAction {
    match phase {
        LookupPhase::AskingSelf { account } => LookupAction::LookupSelf { account },
        LookupPhase::Searching { account } => LookupAction::SearchContacts { account },
        LookupPhase::FoundSelf => LookupAction::TakeSelf,
        LookupPhase::FoundResult { pick } => LookupAction::TakeResult { pick },
        LookupPhase::NotFound => LookupAction::NoData,
        LookupPhase::Failed => LookupAction::Fail,
    }
}

/// How far a lookup is from its end: two requests for each account that
/// is still to be tried, one less once the profile was asked for.
pub open spec fn requests_left(own: Seq<bool>, phase: LookupPhase) -> int {
    match phase {
        LookupPhase::AskingSelf { account } => 2 * (own.len() - account),
        LookupPhase::Searching { account } => 2 * (own.len() - account) - 1,
        _ => 0,
    }
}

impl Lookup {
    /// A lookup stands at an account that the provider has.
    pub open spec fn wf(self) -> bool {
        match self.phase {
            LookupPhase::AskingSelf { account } => account < self.own@.len() && self.own@[account as int],
            LookupPhase::Searching { account } => account < self.own@.len(),
            _ => true,
        }
    }

    fn phase_for(own: &Vec<bool>, account: usize) -> (phase: LookupPhase)
        ensures
            phase == phase_at(own@, account as int),
    {
        if account >= own.len() {
            LookupPhase::NotFound
        } else if own[account] {
            LookupPhase::AskingSelf { account }
        } else {
            LookupPhase::Searching { account }
        }
    }

    /// The action that the lookup is waiting on.
    pub fn pending_action(&self) -> (action: LookupAction)
        ensures
            action == action_in(self.phase),
    {
        match self.phase {
            LookupPhase::AskingSelf { account } => LookupAction::LookupSelf { account },
            LookupPhase::Searching { account } => LookupAction::SearchContacts { account },
            LookupPhase::FoundSelf => LookupAction::TakeSelf,
            LookupPhase::FoundResult { pick } => LookupAction::TakeResult { pick },
            LookupPhase::NotFound => LookupAction::NoData,
            LookupPhase::Failed => LookupAction::Fail,
        }
    }

    /// Takes a report of the caller and says what to do next. Each step
    /// that does not end the lookup brings it nearer to its end: no
    /// account is asked twice for the same thing.
    pub fn step(&mut self, event: LookupEvent) -> (action: LookupAction)
        ensures
            old(self).wf() ==> final(self).wf(),
            final(self).own@ == old(self).own@,
            final(self).phase == next_phase(old(self).own@, old(self).phase, event),
            action == action_in(final(self).phase),
            old(self).wf() && final(self).phase != old(self).phase ==> requests_left(
                final(self).own@,
                final(self).phase,
            ) < requests_left(old(self).own@, old(self).phase),
    {
        let next = match (self.phase, event) {
            (LookupPhase::AskingSelf { account }, LookupEvent::SelfAnswered { found }) => {
                if found {
                    LookupPhase::FoundSelf
                } else {
                    LookupPhase::Searching { account }
                }
            },
            (LookupPhase::Searching { account }, LookupEvent::SearchAnswered { outcome }) => {
                match outcome {
                    SearchOutcome::People { best: Some(pick) } => LookupPhase::FoundResult { pick },
                    SearchOutcome::Unreadable => LookupPhase::Failed,
                    _ => {
                        if account < self.own.len() {
                            Self::phase_for(&self.own, account + 1)
                        } else {
                            LookupPhase::NotFound
                        }
                    },
                }
            },
            (phase, _) => phase,
        };
        self.phase = next;
        self.pending_action()
    }
}

/// A service that can be asked about a sender.
pub trait PeopleProvider {
    /// For each account of the provider, whether `address` is the
    /// account's own, but for the case of its letters.
    spec fn own_accounts(&self, address: Seq<char>) -> Seq<bool>;

    /// The name of the service.
    fn name(&self) -> (name: String);

    /// Begins a lookup of the sender with the address `address`: with the
    /// first account, or ended at once where the provider has none.
    fn lookup(&self, address: &str) -> (lookup: Lookup)
        ensures
            lookup.wf(),
            lookup.own@ == self.own_accounts(address@),
            lookup.phase == phase_at(lookup.own@, 0),
    ;
}

impl PeopleProvider for GooglePeopleProvider {
    open spec fn own_accounts(&self, address: Seq<char>) -> Seq<bool> {
        Seq::new(
            self.accounts@.len(),
            |i: int| same_ignoring_case(address, self.accounts@[i].0@),
        )
    }

    fn name(&self) -> (name: String)
        ensures
            name@ == "Google People API"@,
    {
        "Google People API".to_owned()
    }

    fn lookup(&self, address: &str) -> (lookup: Lookup) {
        let mut own: Vec<bool> = Vec::new();
        let mut i: usize = 0;
        while i < self.accounts.len()
            invariant
                i <= self.accounts.len(),
                own@.len() == i,
                forall|k: int|
                    0 <= k < i ==> own@[k] == same_ignoring_case(address@, self.accounts@[k].0@),
            decreases self.accounts.len() - i,
        {
            own.push(eq_ignoring_case(address, self.accounts[i].0.as_str()));
            i = i + 1;
        }
        assert(own@ =~= self.own_accounts(address@));
        let phase = Lookup::phase_for(&own, 0);
        Lookup { own, phase }
    }
}

impl PeopleProvider for MicrosoftPeopleProvider {
    open spec fn own_accounts(&self, address: Seq<char>) -> Seq<bool> {
        Seq::empty()
    }

    fn name(&self) -> (name: String)
        ensures
            name@ == "Microsoft People API"@,
    {
        "Microsoft People API".to_owned()
    }

    fn lookup(&self, address: &str) -> (lookup: Lookup) {
        let own: Vec<bool> = Vec::new();
        let phase = Lookup::phase_for(&own, 0);
        Lookup { own, phase }
    }
}

} // verus!
