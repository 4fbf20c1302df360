use mailsync::enrichment::{
    best_match, first_photo_url, AvatarAction, AvatarSearch, GoogleOrganization, GooglePerson,
    PeopleEnrichmentData,
};
use mailsync::providers::{
    GooglePeopleProvider, Lookup, LookupAction, LookupEvent, LookupPhase,
    MicrosoftPeopleProvider, PeopleProvider, SearchOutcome,
};

fn person(name: &str, addresses: &[Option<&str>]) -> GooglePerson {
    GooglePerson {
        display_names: vec![Some(name.to_string()), Some("Second".to_string())],
        photo_urls: vec![Some(format!("https://photos/{}", name))],
        organizations: vec![
            GoogleOrganization { title: Some("Engineer".to_string()), name: None },
            GoogleOrganization { title: None, name: Some("Later".to_string()) },
        ],
        biographies: vec![],
        email_addresses: addresses.iter().map(|a| a.map(|s| s.to_string())).collect(),
    }
}

#[test]
fn enrichment_keeps_the_first_of_each() {
    let data = person("Ann", &[]).enrichment();
    assert_eq!(data.name.as_deref(), Some("Ann"));
    assert_eq!(data.avatar_url.as_deref(), Some("https://photos/Ann"));
    assert_eq!(data.job_title.as_deref(), Some("Engineer"));
    assert_eq!(data.company, None);
    assert_eq!(data.bio, None);
    assert_eq!(data.location, None);
    let empty = GooglePerson {
        display_names: vec![None, Some("Late".to_string())],
        photo_urls: vec![],
        organizations: vec![],
        biographies: vec![Some("Bio".to_string())],
        email_addresses: vec![],
    };
    let data = empty.enrichment();
    assert_eq!(data.name, None);
    assert_eq!(data.avatar_url, None);
    assert_eq!(data.job_title, None);
    assert_eq!(data.bio.as_deref(), Some("Bio"));
    let none = PeopleEnrichmentData::default();
    assert!(none.name.is_none() && none.avatar_url.is_none() && none.job_title.is_none());
    assert!(none.company.is_none() && none.bio.is_none() && none.location.is_none());
}

#[test]
fn best_match_prefers_the_address() {
    let people = vec![
        person("Ann", &[Some("ann@example.com")]),
        person("Bob", &[None, Some("Bob@Example.com")]),
        person("Bobby", &[Some("bob@example.com")]),
    ];
    assert_eq!(best_match(&people, "bob@example.com"), Some(1));
    assert_eq!(best_match(&people, "BOB@EXAMPLE.COM"), Some(1));
    assert_eq!(best_match(&people, "ann@example.com"), Some(0));
    assert_eq!(best_match(&people, "carl@example.com"), Some(0));
    assert_eq!(best_match(&Vec::new(), "carl@example.com"), None);
    assert!(people[1].has_address("bob@example.com"));
    assert!(!people[1].has_address("bob@example.org"));
}

#[test]
fn avatar_is_the_first_photo_of_the_first_person() {
    let people = vec![person("Ann", &[]), person("Bob", &[])];
    assert_eq!(first_photo_url(&people).as_deref(), Some("https://photos/Ann"));
    assert_eq!(first_photo_url(&Vec::new()), None);
    let mut bare = person("Ann", &[]);
    bare.photo_urls = vec![None, Some("later".to_string())];
    assert_eq!(first_photo_url(&vec![bare]), None);
}

fn google() -> GooglePeopleProvider {
    GooglePeopleProvider {
        accounts: vec![
            ("first@gmail.com".to_string(), "t1".to_string()),
            ("Me@Gmail.com".to_string(), "t2".to_string()),
            ("third@gmail.com".to_string(), "t3".to_string()),
        ],
    }
}

fn search(outcome: SearchOutcome) -> LookupEvent {
    LookupEvent::SearchAnswered { outcome }
}

#[test]
fn provider_names() {
    assert_eq!(google().name(), "Google People API");
    assert_eq!(MicrosoftPeopleProvider { access_tokens: vec![] }.name(), "Microsoft People API");
}

#[test]
fn microsoft_knows_nothing_yet() {
    let provider = MicrosoftPeopleProvider { access_tokens: vec!["t".to_string()] };
    let lookup = provider.lookup("a@b.c");
    assert_eq!(lookup.pending_action(), LookupAction::NoData);
}

#[test]
fn lookup_tries_the_accounts_in_turn() {
    let mut lookup = google().lookup("me@gmail.com");
    assert_eq!(lookup.own, vec![false, true, false]);
    assert_eq!(lookup.pending_action(), LookupAction::SearchContacts { account: 0 });
    assert_eq!(lookup.step(search(SearchOutcome::Refused)), LookupAction::LookupSelf { account: 1 });
    assert_eq!(
        lookup.step(LookupEvent::SelfAnswered { found: false }),
        LookupAction::SearchContacts { account: 1 }
    );
    assert_eq!(
        lookup.step(search(SearchOutcome::People { best: None })),
        LookupAction::SearchContacts { account: 2 }
    );
    assert_eq!(lookup.step(search(SearchOutcome::Unreachable)), LookupAction::NoData);
    assert_eq!(lookup.step(search(SearchOutcome::Refused)), LookupAction::NoData);
    assert_eq!(lookup.phase, LookupPhase::NotFound);
}

#[test]
fn lookup_ends_with_the_first_answer() {
    let mut lookup = google().lookup("ME@GMAIL.COM");
    lookup.step(search(SearchOutcome::Unreachable));
    assert_eq!(lookup.step(LookupEvent::SelfAnswered { found: true }), LookupAction::TakeSelf);
    assert_eq!(lookup.step(search(SearchOutcome::Refused)), LookupAction::TakeSelf);

    let mut lookup = google().lookup("someone@else.org");
    assert_eq!(
        lookup.step(search(SearchOutcome::People { best: Some(4) })),
        LookupAction::TakeResult { pick: 4 }
    );

    let mut lookup = google().lookup("someone@else.org");
    assert_eq!(lookup.step(LookupEvent::SelfAnswered { found: true }), LookupAction::SearchContacts { account: 0 });
    assert_eq!(lookup.step(search(SearchOutcome::Unreadable)), LookupAction::Fail);
    assert_eq!(lookup.step(search(SearchOutcome::People { best: Some(0) })), LookupAction::Fail);
}

#[test]
fn provider_without_accounts_has_no_data() {
    let lookup: Lookup = GooglePeopleProvider { accounts: vec![] }.lookup("a@b.c");
    assert_eq!(lookup.pending_action(), LookupAction::NoData);
}

fn person_with_photo(url: Option<&str>) -> GooglePerson {
    GooglePerson {
        display_names: vec![],
        photo_urls: vec![url.map(|u| u.to_string())],
        organizations: vec![],
        biographies: vec![],
        email_addresses: vec![],
    }
}

#[test]
fn picture_search_asks_each_account_until_one_knows_a_picture() {
    let mut search = AvatarSearch::new(3);
    assert_eq!(search.pending_action(), AvatarAction::Ask { account: 0 });
    assert_eq!(search.report(None), None);
    assert_eq!(search.pending_action(), AvatarAction::Ask { account: 1 });
    assert_eq!(search.report(Some(&vec![])), None);
    assert_eq!(search.pending_action(), AvatarAction::Ask { account: 2 });
    let people = vec![person_with_photo(Some("https://p/1")), person_with_photo(Some("https://p/2"))];
    assert_eq!(search.report(Some(&people)), Some("https://p/1".to_string()));
    assert_eq!(search.pending_action(), AvatarAction::Stop);
    assert_eq!(search.report(Some(&people)), None);
    assert_eq!(search, AvatarSearch { accounts: 3, asked: 3, found: true });
}

#[test]
fn picture_search_stops_early_or_finds_nothing() {
    let mut search = AvatarSearch::new(2);
    let people = vec![person_with_photo(Some("https://p/1"))];
    assert_eq!(search.report(Some(&people)), Some("https://p/1".to_string()));
    assert_eq!(search.pending_action(), AvatarAction::Stop);
    assert_eq!(search.asked, 1);

    let mut search = AvatarSearch::new(1);
    assert_eq!(search.report(Some(&vec![person_with_photo(None)])), None);
    assert_eq!(search.pending_action(), AvatarAction::Stop);
    assert!(!search.found);
    assert_eq!(AvatarSearch::new(0).pending_action(), AvatarAction::Stop);
}
