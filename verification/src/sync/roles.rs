//! The special-use role of a folder, as told from what the server says of
//! the folder and from its name.

use vstd::prelude::*;
use crate::sync::checkpoint::FolderRole;
use crate::text::{contains_chars, lowercase, lowercased, occurs_in, to_chars};

verus! {

/// The word under which a role is stored.
pub open spec fn role_word(role: FolderRole) -> Seq<char> {
    match role {
        FolderRole::Inbox => "inbox"@,
        FolderRole::Sent => "sent"@,
        FolderRole::Drafts => "drafts"@,
        FolderRole::Trash => "trash"@,
        FolderRole::Spam => "spam"@,
        FolderRole::Archive => "archive"@,
    }
}

/// The role that a stored word names, if it names one.
pub open spec fn role_named(word: Seq<char>) -> Option<FolderRole> {
    if word == "inbox"@ {
        Some(FolderRole::Inbox)
    } else if word == "sent"@ {
        Some(FolderRole::Sent)
    } else if word == "drafts"@ {
        Some(FolderRole::Drafts)
    } else if word == "trash"@ {
        Some(FolderRole::Trash)
    } else if word == "spam"@ {
        Some(FolderRole::Spam)
    } else if word == "archive"@ {
        Some(FolderRole::Archive)
    } else {
        None
    }
}

/// The role of a folder. What the server says of the folder comes first:
/// inbox, sent, drafts, trash, in this order. Else the name decides,
/// whatever the case of its letters: a name with `spam` or `junk` in it is
/// the spam folder, one with `archive` or `all mail` the archive.
pub open spec fn role_of(
    is_inbox: bool,
    is_sent: bool,
    is_drafts: bool,
    is_trash: bool,
    name: Seq<char>,
) -> Option<FolderRole> {
    if is_inbox {
        Some(FolderRole::Inbox)
    } else if is_sent {
        Some(FolderRole::Sent)
    } else if is_drafts {
        Some(FolderRole::Drafts)
    } else if is_trash {
        Some(FolderRole::Trash)
    } else if occurs_in(lowercased(name), "spam"@) || occurs_in(lowercased(name), "junk"@) {
        Some(FolderRole::Spam)
    } else if occurs_in(lowercased(name), "archive"@) || occurs_in(lowercased(name), "all mail"@) {
        Some(FolderRole::Archive)
    } else {
        None
    }
}

impl FolderRole {
    /// The word under which the role is stored.
    pub fn as_word(&self) -> (word: String)
        ensures
            word@ == role_word(*self),
    {
        match self {
            FolderRole::Inbox => "inbox".to_owned(),
            FolderRole::Sent => "sent".to_owned(),
            FolderRole::Drafts => "drafts".to_owned(),
            FolderRole::Trash => "trash".to_owned(),
            FolderRole::Spam => "spam".to_owned(),
            FolderRole::Archive => "archive".to_owned(),
        }
    }

    /// The role that a stored word names.
    pub fn from_word(word: &String) -> (role: Option<FolderRole>)
        ensures
            role == role_named(word@),
    {
        if *word == "inbox".to_owned() {
            Some(FolderRole::Inbox)
        } else if *word == "sent".to_owned() {
            Some(FolderRole::Sent)
        } else if *word == "drafts".to_owned() {
            Some(FolderRole::Drafts)
        } else if *word == "trash".to_owned() {
            Some(FolderRole::Trash)
        } else if *word == "spam".to_owned() {
            Some(FolderRole::Spam)
        } else if *word == "archive".to_owned() {
            Some(FolderRole::Archive)
        } else {
            None
        }
    }
}

/// Tells the role of a folder from what the server says of it and from
/// its name.
pub fn detect_role(is_inbox: bool, is_sent: bool, is_drafts: bool, is_trash: bool, name: &str) -> (role:
    Option<FolderRole>)
    ensures
        role == role_of(is_inbox, is_sent, is_drafts, is_trash, name@),
{
    if is_inbox {
        Some(FolderRole::Inbox)
    } else if is_sent {
        Some(FolderRole::Sent)
    } else if is_drafts {
        Some(FolderRole::Drafts)
    } else if is_trash {
        Some(FolderRole::Trash)
    } else {
        let lower = lowercase(name);
        let chars = to_chars(lower.as_str());
        if contains_chars(&chars, &to_chars("spam")) || contains_chars(&chars, &to_chars("junk")) {
            Some(FolderRole::Spam)
        } else if contains_chars(&chars, &to_chars("archive")) || contains_chars(
            &chars,
            &to_chars("all mail"),
        ) {
            Some(FolderRole::Archive)
        } else {
            None
        }
    }
}

/// A role is stored under a word that names it.
pub proof fn lemma_role_word_round_trip(role: FolderRole)
    ensures
        role_named(role_word(role)) == Some(role),
{
    reveal_strlit("inbox");
    reveal_strlit("sent");
    reveal_strlit("drafts");
    reveal_strlit("trash");
    reveal_strlit("spam");
    reveal_strlit("archive");
    match role {
        FolderRole::Inbox => {},
        FolderRole::Sent => {
            assert("sent"@.len() != "inbox"@.len());
        },
        FolderRole::Drafts => {
            assert("drafts"@.len() != "inbox"@.len());
            assert("drafts"@.len() != "sent"@.len());
        },
        FolderRole::Trash => {
            assert("trash"@[0] != "inbox"@[0]);
            assert("trash"@.len() != "sent"@.len());
            assert("trash"@.len() != "drafts"@.len());
        },
        FolderRole::Spam => {
            assert("spam"@.len() != "inbox"@.len());
            assert("spam"@[1] != "sent"@[1]);
            assert("spam"@.len() != "drafts"@.len());
            assert("spam"@.len() != "trash"@.len());
        },
        FolderRole::Archive => {
            assert("archive"@.len() != "inbox"@.len());
            assert("archive"@.len() != "sent"@.len());
            assert("archive"@.len() != "drafts"@.len());
            assert("archive"@.len() != "trash"@.len());
            assert("archive"@.len() != "spam"@.len());
        },
    }
}

} // verus!
