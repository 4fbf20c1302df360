//! What directory services know of a sender.
//!
//! A provider is asked account by account. The requests are the caller's
//! part; which request comes next, which of the people found is taken and
//! what is kept of a person is decided here.

use vstd::prelude::*;
use crate::text::{clone_opt_text, eq_ignoring_case, opt_text, same_ignoring_case};

verus! {

/// What is known of a sender.
#[derive(Debug)]
pub struct PeopleEnrichmentData {
    pub name: Option<String>,
    pub avatar_url: Option<String>,
    pub job_title: Option<String>,
    pub company: Option<String>,
    pub bio: Option<String>,
    pub location: Option<String>,
}

/// What [`PeopleEnrichmentData`] hold.
pub struct PeopleEnrichmentView {
    pub name: Option<Seq<char>>,
    pub avatar_url: Option<Seq<char>>,
    pub job_title: Option<Seq<char>>,
    pub company: Option<Seq<char>>,
    pub bio: Option<Seq<char>>,
    pub location: Option<Seq<char>>,
}

impl View for PeopleEnrichmentData {
    type V = PeopleEnrichmentView;

    open spec fn view(&self) -> PeopleEnrichmentView {
        PeopleEnrichmentView {
            name: opt_text(self.name),
            avatar_url: opt_text(self.avatar_url),
            job_title: opt_text(self.job_title),
            company: opt_text(self.company),
            bio: opt_text(self.bio),
            location: opt_text(self.location),
        }
    }
}

impl Default for PeopleEnrichmentData {
    fn default() -> (data: PeopleEnrichmentData)
        ensures
            data@ == (PeopleEnrichmentView {
                name: None,
                avatar_url: None,
                job_title: None,
                company: None,
                bio: None,
                location: None,
            }),
    {
        PeopleEnrichmentData {
            name: None,
            avatar_url: None,
            job_title: None,
            company: None,
            bio: None,
            location: None,
        }
    }
}

/// An organization that a person belongs to.
#[derive(Debug)]
pub struct GoogleOrganization {
    pub title: Option<String>,
    pub name: Option<String>,
}

/// A person as Google's people service describes one. Each list is in
/// the order of the service; a missing list is held as an empty one.
#[derive(Debug)]
pub struct GooglePerson {
    pub display_names: Vec<Option<String>>,
    pub photo_urls: Vec<Option<String>>,
    pub organizations: Vec<GoogleOrganization>,
    pub biographies: Vec<Option<String>>,
    pub email_addresses: Vec<Option<String>>,
}

/// What a [`GooglePerson`] holds.
pub struct GooglePersonView {
    pub display_names: Seq<Option<Seq<char>>>,
    pub photo_urls: Seq<Option<Seq<char>>>,
    pub organizations: Seq<(Option<Seq<char>>, Option<Seq<char>>)>,
    pub biographies: Seq<Option<Seq<char>>>,
    pub email_addresses: Seq<Option<Seq<char>>>,
}

/// What each optional string of a list holds.
pub open spec fn opt_texts(items: Seq<Option<String>>) -> Seq<Option<Seq<char>>> {
    Seq::new(items.len(), |i: int| opt_text(items[i]))
}

impl View for GooglePerson {
    type V = GooglePersonView;

    open spec fn view(&self) -> GooglePersonView {
        GooglePersonView {
            display_names: opt_texts(self.display_names@),
            photo_urls: opt_texts(self.photo_urls@),
            organizations: Seq::new(
                self.organizations@.len(),
                |i: int|
                    (
                        opt_text(self.organizations@[i].title),
                        opt_text(self.organizations@[i].name),
                    ),
            ),
            biographies: opt_texts(self.biographies@),
            email_addresses: opt_texts(self.email_addresses@),
        }
    }
}

/// Whether an entry is `address`, but for the case of its letters.
pub open spec fn address_is(entry: Option<Seq<char>>, address: Seq<char>) -> bool {
    match entry {
        Some(a) => same_ignoring_case(a, address),
        None => false,
    }
}

/// The first entry of a list, if it has one and the entry holds text.
pub open spec fn first_text(items: Seq<Option<Seq<char>>>) -> Option<Seq<char>> {
    if items.len() > 0 {
        items[0]
    } else {
        None
    }
}

impl GooglePersonView {
    /// What is kept of a person: the first display name, the first
    /// photo, title and name of the first organization, and the first
    /// biography. The service tells no location.
    pub open spec fn enrichment(self) -> PeopleEnrichmentView {
        PeopleEnrichmentView {
            name: first_text(self.display_names),
            avatar_url: first_text(self.photo_urls),
            job_title: if self.organizations.len() > 0 {
                self.organizations[0].0
            } else {
                None
            },
            company: if self.organizations.len() > 0 {
                self.organizations[0].1
            } else {
                None
            },
            bio: first_text(self.biographies),
            location: None,
        }
    }

    /// Whether one of the person's addresses is `address`, but for the
    /// case of its letters.
    pub open spec fn has_address(self, address: Seq<char>) -> bool {
        exists|i: int|
            0 <= i < self.email_addresses.len() && address_is(
                #[trigger] self.email_addresses[i],
                address,
            )
    }
}

/// A copy of the first entry of a list.
fn first_of(items: &Vec<Option<String>>) -> (first: Option<String>)
    ensures
        opt_text(first) == first_text(opt_texts(items@)),
{
    if items.len() > 0 {
        clone_opt_text(&items[0])
    } else {
        None
    }
}

impl GooglePerson {
    /// What is kept of the person.
    pub fn enrichment(&self) -> (data: PeopleEnrichmentData)
        ensures
            data@ == self@.enrichment(),
    {
        let (job_title, company) = if self.organizations.len() > 0 {
            (
                clone_opt_text(&self.organizations[0].title),
                clone_opt_text(&self.organizations[0].name),
            )
        } else {
            (None, None)
        };
        PeopleEnrichmentData {
            name: first_of(&self.display_names),
            avatar_url: first_of(&self.photo_urls),
            job_title,
            company,
            bio: first_of(&self.biographies),
            location: None,
        }
    }

    /// Whether one of the person's addresses is `address`, but for the
    /// case of its letters.
    pub fn has_address(&self, address: &str) -> (yes: bool)
        ensures
            yes == self@.has_address(address@),
    {
        let mut i: usize = 0;
        while i < self.email_addresses.len()
            invariant
                i <= self.email_addresses.len(),
                forall|k: int|
                    0 <= k < i ==> !address_is(#[trigger] self@.email_addresses[k], address@),
            decreases self.email_addresses.len() - i,
        {
            let hit = match &self.email_addresses[i] {
                Some(a) => eq_ignoring_case(a.as_str(), address),
                None => false,
            };
            if hit {
                assert(address_is(self@.email_addresses[i as int], address@));
                return true;
            }
            i = i + 1;
        }
        false
    }
}

/// What each person of a list holds.
pub open spec fn person_views(people: Seq<GooglePerson>) -> Seq<GooglePersonView> {
    Seq::new(people.len(), |i: int| people[i]@)
}

/// The place of the first person with the address, or the number of
/// people if none has it.
pub open spec fn first_with_address(people: Seq<GooglePersonView>, address: Seq<char>) -> int
    decreases people.len(),
{
    if people.len() == 0 || people[0].has_address(address) {
        0
    } else {
        1 + first_with_address(people.drop_first(), address)
    }
}

/// The person that a search is taken to have found: the first with the
/// address that was searched for; if none has it, the first; if the
/// search found nobody, none.
pub open spec fn best_match_spec(people: Seq<GooglePersonView>, address: Seq<char>) -> Option<int> {
    if people.len() == 0 {
        None
    } else if first_with_address(people, address) < people.len() {
        Some(first_with_address(people, address))
    } else {
        Some(0)
    }
}

/// A place before which nobody has the address, and at which somebody
/// has it or the list ends, is the first place with the address.
proof fn lemma_is_first_with_address(people: Seq<GooglePersonView>, address: Seq<char>, at: int)
    requires
        0 <= at <= people.len(),
        forall|i: int| 0 <= i < at ==> !(#[trigger] people[i]).has_address(address),
        at < people.len() ==> people[at].has_address(address),
    ensures
        first_with_address(people, address) == at,
    decreases people.len(),
{
    if people.len() > 0 && at > 0 {
        let rest = people.drop_first();
        assert(!people[0].has_address(address));
        assert forall|i: int| 0 <= i < at - 1 implies !(#[trigger] rest[i]).has_address(
            address,
        ) by {
            assert(rest[i] == people[i + 1]);
        }
        lemma_is_first_with_address(rest, address, at - 1);
    }
}

/// Picks the person that a search is taken to have found.
pub fn best_match(people: &Vec<GooglePerson>, address: &str) -> (pick: Option<usize>)
    ensures
        match pick {
            Some(i) => best_match_spec(person_views(people@), address@) == Some(i as int) && i
                < people.len(),
            None => best_match_spec(person_views(people@), address@) is None,
        },
{
    if people.len() == 0 {
        return None;
    }
    let mut i: usize = 0;
    while i < people.len()
        invariant
            i <= people.len(),
            forall|k: int|
                0 <= k < i ==> !(#[trigger] person_views(people@)[k]).has_address(address@),
        decreases people.len() - i,
    {
        if people[i].has_address(address) {
            proof {
                lemma_is_first_with_address(person_views(people@), address@, i as int);
            }
            return Some(i);
        }
        i = i + 1;
    }
    proof {
        lemma_is_first_with_address(person_views(people@), address@, i as int);
    }
    Some(0)
}

/// The photo that a search for a sender's picture gives: the first photo
/// of the first person found, if it has an address.
pub open spec fn first_photo_spec(people: Seq<GooglePersonView>) -> Option<Seq<char>> {
    if people.len() > 0 {
        first_text(people[0].photo_urls)
    } else {
        None
    }
}

/// Picks the photo that a search for a sender's picture gives.
pub fn first_photo_url(people: &Vec<GooglePerson>) -> (url: Option<String>)
    ensures
        opt_text(url) == first_photo_spec(person_views(people@)),
{
    if people.len() > 0 {
        first_of(&people[0].photo_urls)
    } else {
        None
    }
}

/// What the caller is asked to do in a search for a sender's picture.
#[derive(Clone, Copy, Debug, PartialEq, Eq, Structural)]
pub enum AvatarAction {
    /// Search the contacts and the directory of the account at this
    /// place.
    Ask { account: usize },
    /// The search is over.
    Stop,
}

/// The search for a sender's picture: the accounts are asked one after
/// the other, until one of them knows a picture or none is left. An
/// account that cannot be asked, or knows none, is passed over.
#[derive(Clone, Copy, Debug, PartialEq, Eq, Structural)]
pub struct AvatarSearch {
    /// The number of accounts.
    pub accounts: usize,
    /// The number of accounts that were asked.
    pub asked: usize,
    /// Whether a picture was found.
    pub found: bool,
}

impl AvatarSearch {
    /// What is to be done next.
    pub open spec fn pending(self) -> AvatarAction {
        if !self.found && self.asked < self.accounts {
            AvatarAction::Ask { account: self.asked }
        } else {
            AvatarAction::Stop
        }
    }

    /// The picture in the answer of an account: that of the first person
    /// found; none where the account could not be asked.
    pub open spec fn photo_in(answer: Option<Seq<GooglePersonView>>) -> Option<Seq<char>> {
        match answer {
            Some(people) => first_photo_spec(people),
            None => None,
        }
    }

    /// A search over `accounts` accounts.
    pub fn new(accounts: usize) -> (search: AvatarSearch)
        ensures
            search == (AvatarSearch { accounts, asked: 0, found: false }),
    {
        AvatarSearch { accounts, asked: 0, found: false }
    }

    /// What is to be done next.
    pub fn pending_action(&self) -> (action: AvatarAction)
        ensures
            action == self.pending(),
    {
        if !self.found && self.asked < self.accounts {
            AvatarAction::Ask { account: self.asked }
        } else {
            AvatarAction::Stop
        }
    }

    /// Takes the answer of the account that was due, `None` where it
    /// could not be asked or its answer could not be read, and gives the
    /// picture in it. With a picture the search is over; without one the
    /// account that follows is due. Once the search is over, a report
    /// changes nothing and gives nothing.
    pub fn report(&mut self, answer: Option<&Vec<GooglePerson>>) -> (url: Option<String>)
        ensures
            final(self).accounts == old(self).accounts,
            old(self).pending() is Stop ==> *final(self) == *old(self) && url is None,
            old(self).pending() is Ask ==> {
                &&& opt_text(url) == Self::photo_in(
                    match answer {
                        Some(people) => Some(person_views(people@)),
                        None => None,
                    },
                )
                &&& final(self).asked == old(self).asked + 1
                &&& final(self).found == url is Some
            },
    {
        if self.found || self.asked >= self.accounts {
            return None;
        }
        self.asked = self.asked + 1;
        let url = match answer {
            Some(people) => first_photo_url(people),
            None => None,
        };
        self.found = url.is_some();
        url
    }
}

} // verus!
