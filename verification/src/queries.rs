//! The query that lists cached messages, and when the body of a message
//! has to be fetched.

use vstd::prelude::*;
use crate::emails::EmailContent;
use crate::text::{from_chars, join_chars, to_chars};

verus! {

/// The most messages that one listing holds.
pub const LIST_LIMIT: u32 = 100;

/// A filter on the flags of the messages listed.
#[derive(Clone, Copy, Debug, PartialEq, Eq, Structural)]
pub enum EmailFilter {
    /// Messages that were not seen.
    Unread,
    /// Messages that are flagged.
    Flagged,
}

/// A query and the values that stand for its `?`, in their order.
#[derive(Debug)]
pub struct EmailQuery {
    pub sql: String,
    pub bindings: Vec<i64>,
}

/// The filter that a word names; any other word names none.
pub open spec fn filter_named(word: Seq<char>) -> Option<EmailFilter> {
    if word == "unread"@ {
        Some(EmailFilter::Unread)
    } else if word == "flagged"@ {
        Some(EmailFilter::Flagged)
    } else {
        None
    }
}

/// The columns that a listing selects.
pub open spec fn select_text() -> Seq<char> {
    "SELECT id, account_id, folder_id, remote_id, message_id, subject, sender_name, sender_address, date, flags, snippet, has_attachments FROM emails"@
}

/// How a listing is ordered and cut off: newest first, at most
/// [`LIST_LIMIT`] messages.
pub open spec fn order_text() -> Seq<char> {
    " ORDER BY date DESC LIMIT 100"@
}

/// The condition that a filter stands for.
pub open spec fn filter_text(filter: EmailFilter) -> Seq<char> {
    match filter {
        EmailFilter::Unread => "flags NOT LIKE '%\\\\Seen%'"@,
        EmailFilter::Flagged => "flags LIKE '%\\\\Flagged%'"@,
    }
}

/// The conditions of a listing, in their order: the account, the folder,
/// the filter, each where it is given.
pub open spec fn conditions(
    account_id: Option<i64>,
    folder_id: Option<i64>,
    filter: Option<EmailFilter>,
) -> Seq<Seq<char>> {
    (if account_id is Some {
        seq!["account_id = ?"@]
    } else {
        Seq::<Seq<char>>::empty()
    }) + (if folder_id is Some {
        seq!["folder_id = ?"@]
    } else {
        Seq::<Seq<char>>::empty()
    }) + (match filter {
        Some(f) => seq![filter_text(f)],
        None => Seq::<Seq<char>>::empty(),
    })
}

/// The values for the `?` of a listing: the account, then the folder,
/// each where it is given.
pub open spec fn bindings_of(account_id: Option<i64>, folder_id: Option<i64>) -> Seq<i64> {
    (match account_id {
        Some(a) => seq![a],
        None => Seq::<i64>::empty(),
    }) + (match folder_id {
        Some(f) => seq![f],
        None => Seq::<i64>::empty(),
    })
}

/// Conditions joined by ` AND `.
pub open spec fn all_of(parts: Seq<Seq<char>>) -> Seq<char>
    decreases parts.len(),
{
    if parts.len() == 0 {
        Seq::empty()
    } else if parts.len() == 1 {
        parts[0]
    } else {
        all_of(parts.drop_last()) + " AND "@ + parts.last()
    }
}

/// The text of a listing: what is selected, a blank, the conditions
/// after `WHERE ` where there are any, and the order.
pub open spec fn query_text(parts: Seq<Seq<char>>) -> Seq<char> {
    select_text() + " "@ + (if parts.len() == 0 {
        Seq::<char>::empty()
    } else {
        "WHERE "@ + all_of(parts)
    }) + order_text()
}

/// Reads the filter that a word names.
pub fn parse_filter(word: &String) -> (filter: Option<EmailFilter>)
    ensures
        filter == filter_named(word@),
{
    if *word == "unread".to_owned() {
        Some(EmailFilter::Unread)
    } else if *word == "flagged".to_owned() {
        Some(EmailFilter::Flagged)
    } else {
        None
    }
}

/// What each list of characters holds.
pub open spec fn char_lists(parts: Seq<Vec<char>>) -> Seq<Seq<char>> {
    Seq::new(parts.len(), |i: int| parts[i]@)
}

/// Joins conditions by ` AND `.
fn join_all(parts: &Vec<Vec<char>>) -> (text: Vec<char>)
    ensures
        text@ == all_of(char_lists(parts@)),
{
    let mut text: Vec<char> = Vec::new();
    let and = to_chars(" AND ");
    let mut i: usize = 0;
    while i < parts.len()
        invariant
            i <= parts.len(),
            and@ == " AND "@,
            text@ == all_of(char_lists(parts@).take(i as int)),
        decreases parts.len() - i,
    {
        proof {
            let upto = char_lists(parts@).take(i + 1);
            assert(upto.drop_last() == char_lists(parts@).take(i as int));
            assert(upto.last() == parts[i as int]@);
            if i == 0 {
                assert(all_of(upto) == parts[i as int]@);
                assert(text@ + parts[i as int]@ == parts[i as int]@);
            }
        }
        if i > 0 {
            text = join_chars(&text, &and);
        }
        text = join_chars(&text, &parts[i]);
        i = i + 1;
    }
    assert(char_lists(parts@).take(parts.len() as int) == char_lists(parts@));
    text
}

/// Builds the query that lists cached messages: those of an account, of
/// a folder, with a filter on their flags, each where it is given.
pub fn email_query(account_id: Option<i64>, folder_id: Option<i64>, filter: Option<EmailFilter>) -> (query:
    EmailQuery)
    ensures
        query.sql@ == query_text(conditions(account_id, folder_id, filter)),
        query.bindings@ == bindings_of(account_id, folder_id),
{
    let mut parts: Vec<Vec<char>> = Vec::new();
    let mut bindings: Vec<i64> = Vec::new();
    if let Some(a) = account_id {
        parts.push(to_chars("account_id = ?"));
        bindings.push(a);
    }
    if let Some(f) = folder_id {
        parts.push(to_chars("folder_id = ?"));
        bindings.push(f);
    }
    match filter {
        Some(EmailFilter::Unread) => {
            parts.push(to_chars("flags NOT LIKE '%\\\\Seen%'"));
        },
        Some(EmailFilter::Flagged) => {
            parts.push(to_chars("flags LIKE '%\\\\Flagged%'"));
        },
        None => {},
    }
    assert(char_lists(parts@) =~= conditions(account_id, folder_id, filter));
    assert(bindings@ =~= bindings_of(account_id, folder_id));
    let mut sql = join_chars(
        &to_chars(
            "SELECT id, account_id, folder_id, remote_id, message_id, subject, sender_name, sender_address, date, flags, snippet, has_attachments FROM emails",
        ),
        &to_chars(" "),
    );
    if parts.len() > 0 {
        sql = join_chars(&sql, &join_chars(&to_chars("WHERE "), &join_all(&parts)));
    } else {
        assert(sql@ + Seq::<char>::empty() == sql@);
    }
    sql = join_chars(&sql, &to_chars(" ORDER BY date DESC LIMIT 100"));
    EmailQuery { sql: from_chars(&sql), bindings }
}

/// What is to be done when the body of a message is asked for.
#[derive(Clone, Copy, Debug, PartialEq, Eq, Structural)]
pub enum ContentStep {
    /// The cache holds the body: it is handed out.
    Serve,
    /// The body is fetched from the server, then cached.
    Fetch,
}

/// Decides whether the body of a message has to be fetched, given what
/// the cache holds for the message, if it holds the message at all.
pub fn content_step(cached: &Option<EmailContent>) -> (step: ContentStep)
    ensures
        step == match *cached {
            Some(content) => if content.is_cached_spec() {
                ContentStep::Serve
            } else {
                ContentStep::Fetch
            },
            None => ContentStep::Fetch,
        },
{
    match cached {
        Some(content) => {
            if content.is_cached() {
                ContentStep::Serve
            } else {
                ContentStep::Fetch
            }
        },
        None => ContentStep::Fetch,
    }
}

} // verus!
