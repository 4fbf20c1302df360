//! The rows of the local cache as the rest of the application sees them.

use vstd::prelude::*;
use crate::text::{clone_opt_text, opt_text};

verus! {

/// A cached message: one row of the emails table.
#[derive(Debug)]
pub struct Email {
    pub id: i64,
    pub account_id: i64,
    pub folder_id: i64,
    pub remote_id: String,
    pub message_id: Option<String>,
    pub subject: Option<String>,
    pub sender_name: Option<String>,
    pub sender_address: String,
    pub date: String,
    pub flags: String,
    pub snippet: Option<String>,
    pub has_attachments: bool,
}

/// What an [`Email`] holds.
pub struct EmailView {
    pub id: i64,
    pub account_id: i64,
    pub folder_id: i64,
    pub remote_id: Seq<char>,
    pub message_id: Option<Seq<char>>,
    pub subject: Option<Seq<char>>,
    pub sender_name: Option<Seq<char>>,
    pub sender_address: Seq<char>,
    pub date: Seq<char>,
    pub flags: Seq<char>,
    pub snippet: Option<Seq<char>>,
    pub has_attachments: bool,
}

impl View for Email {
    type V = EmailView;

    open spec fn view(&self) -> EmailView {
        EmailView {
            id: self.id,
            account_id: self.account_id,
            folder_id: self.folder_id,
            remote_id: self.remote_id@,
            message_id: opt_text(self.message_id),
            subject: opt_text(self.subject),
            sender_name: opt_text(self.sender_name),
            sender_address: self.sender_address@,
            date: self.date@,
            flags: self.flags@,
            snippet: opt_text(self.snippet),
            has_attachments: self.has_attachments,
        }
    }
}

impl Clone for Email {
    fn clone(&self) -> (copy: Email)
        ensures
            copy@ == self@,
    {
        Email {
            id: self.id,
            account_id: self.account_id,
            folder_id: self.folder_id,
            remote_id: self.remote_id.clone(),
            message_id: clone_opt_text(&self.message_id),
            subject: clone_opt_text(&self.subject),
            sender_name: clone_opt_text(&self.sender_name),
            sender_address: self.sender_address.clone(),
            date: self.date.clone(),
            flags: self.flags.clone(),
            snippet: clone_opt_text(&self.snippet),
            has_attachments: self.has_attachments,
        }
    }
}

/// The body of a cached message, as far as it has been fetched.
#[derive(Debug)]
pub struct EmailContent {
    pub body_text: Option<String>,
    pub body_html: Option<String>,
}

impl Clone for EmailContent {
    fn clone(&self) -> (copy: EmailContent)
        ensures
            opt_text(copy.body_text) == opt_text(self.body_text),
            opt_text(copy.body_html) == opt_text(self.body_html),
    {
        EmailContent {
            body_text: clone_opt_text(&self.body_text),
            body_html: clone_opt_text(&self.body_html),
        }
    }
}

impl EmailContent {
    /// Whether the body is in the cache: a message whose text and HTML
    /// parts are both missing has to be fetched from the server.
    pub open spec fn is_cached_spec(self) -> bool {
        self.body_text is Some || self.body_html is Some
    }

    pub fn is_cached(&self) -> (cached: bool)
        ensures
            cached == self.is_cached_spec(),
    {
        self.body_text.is_some() || self.body_html.is_some()
    }
}

/// A folder as listed for an account.
#[derive(Debug)]
pub struct Folder {
    pub id: i64,
    pub account_id: i64,
    pub name: String,
    pub path: String,
    pub role: Option<String>,
    pub unread_count: i32,
    pub total_count: i32,
}

/// The metadata of an attachment; its content is stored apart from it.
#[derive(Debug)]
pub struct Attachment {
    pub id: i64,
    pub email_id: i64,
    pub filename: Option<String>,
    pub mime_type: Option<String>,
    pub size: i64,
}

/// A change of the cache that listeners are told of.
#[derive(Debug)]
pub enum EmailEvent {
    Added(Email),
    Updated {
        id: i64,
        address: Option<String>,
        flags: Option<String>,
        summary: Option<String>,
        thread_count: Option<i64>,
    },
    UpdatedBulk { ids: Vec<i64>, flags: Option<String> },
    Removed { id: i64 },
    RemovedBulk { ids: Vec<i64> },
}

} // verus!
