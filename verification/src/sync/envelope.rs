//! Envelopes as the protocol client hands them over, and the cache rows
//! that they are written as.

use vstd::prelude::*;
use crate::emails::{Email, EmailView};
use crate::text::{clone_opt_text, opt_text, texts};

verus! {

/// The metadata of one message on the server.
#[derive(Debug)]
pub struct Envelope {
    /// The identifier of the message within its folder and validity epoch.
    pub id: String,
    pub message_id: String,
    pub subject: String,
    pub sender_name: Option<String>,
    pub sender_address: String,
    /// The date of the message, in seconds since 1970-01-01T00:00:00Z.
    pub date: i64,
    pub flags: Vec<String>,
}

/// What an [`Envelope`] holds.
pub struct EnvelopeView {
    pub id: Seq<char>,
    pub message_id: Seq<char>,
    pub subject: Seq<char>,
    pub sender_name: Option<Seq<char>>,
    pub sender_address: Seq<char>,
    pub date: i64,
    pub flags: Seq<Seq<char>>,
}

impl View for Envelope {
    type V = EnvelopeView;

    open spec fn view(&self) -> EnvelopeView {
        EnvelopeView {
            id: self.id@,
            message_id: self.message_id@,
            subject: self.subject@,
            sender_name: opt_text(self.sender_name),
            sender_address: self.sender_address@,
            date: self.date,
            flags: texts(self.flags@),
        }
    }
}

/// The error of the JSON writer.
#[verifier::external_type_specification]
#[verifier::external_body]
pub struct ExJsonError(serde_json::Error);

/// The instant `secs` seconds after 1970-01-01T00:00:00Z, written as
/// RFC 3339 date and time in UTC with whole seconds and the suffix `Z`;
/// `None` where the instant lies outside the years that can be written.
pub uninterp spec fn rfc3339_utc_text(secs: i64) -> Option<Seq<char>>;

/// A list of strings written as a JSON array, `None` where the writer
/// fails.
pub uninterp spec fn json_array_text(items: Seq<Seq<char>>) -> Option<Seq<char>>;

/// Calls `DateTime::from_timestamp` of chrono with no nanoseconds, and
/// `to_rfc3339_opts` with `SecondsFormat::Secs` and `Z` on what it gives.
/// Trusted: the text is a function of the seconds alone.
#[verifier::external_body]
fn format_rfc3339_utc(secs: i64) -> (text: Option<String>)
    ensures
        opt_text(text) == rfc3339_utc_text(secs),
{
    match chrono::DateTime::from_timestamp(secs, 0) {
        Some(instant) => Some(instant.to_rfc3339_opts(chrono::SecondsFormat::Secs, true)),
        None => None,
    }
}

/// Calls `serde_json::to_string` on a list of strings. Trusted: the text
/// is a function of the strings alone.
#[verifier::external_body]
fn strings_to_json(items: &Vec<String>) -> (out: Result<String, serde_json::Error>)
    ensures
        out matches Ok(text) ==> json_array_text(texts(items@)) == Some(text@),
        out is Err ==> json_array_text(texts(items@)) is None,
{
    serde_json::to_string(items)
}

/// The text that the flags of a message are cached as: a JSON array, or
/// nothing where they cannot be written as one.
pub open spec fn flags_text(flags: Seq<Seq<char>>) -> Seq<char> {
    match json_array_text(flags) {
        Some(text) => text,
        None => Seq::empty(),
    }
}

/// The row that an envelope is first cached as, under the key `id`. Of
/// an envelope it keeps identifier, message identifier, subject, sender,
/// date and flags; the row has no snippet and no attachments yet.
pub open spec fn first_row(id: i64, account_id: i64, folder_id: i64, env: EnvelopeView) -> EmailView {
    EmailView {
        id,
        account_id,
        folder_id,
        remote_id: env.id,
        message_id: Some(env.message_id),
        subject: Some(env.subject),
        sender_name: env.sender_name,
        sender_address: env.sender_address,
        date: match rfc3339_utc_text(env.date) {
            Some(date) => date,
            None => Seq::empty(),
        },
        flags: flags_text(env.flags),
        snippet: None,
        has_attachments: false,
    }
}

/// The row that an envelope is first cached as; `None` where its date
/// cannot be written.
pub open spec fn row_of(id: i64, account_id: i64, folder_id: i64, env: EnvelopeView) -> Option<
    EmailView,
> {
    if rfc3339_utc_text(env.date) is Some {
        Some(first_row(id, account_id, folder_id, env))
    } else {
        None
    }
}

impl Envelope {
    /// Whether the envelope can be written as a row.
    pub open spec fn writable(self) -> bool {
        rfc3339_utc_text(self.date) is Some
    }

    /// The flags as they are cached.
    pub fn flags_json(&self) -> (text: String)
        ensures
            text@ == flags_text(self@.flags),
    {
        match strings_to_json(&self.flags) {
            Ok(text) => text,
            Err(_) => String::new(),
        }
    }

    /// Whether the date of the envelope can be written.
    pub fn is_writable(&self) -> (ok: bool)
        ensures
            ok == self.writable(),
    {
        format_rfc3339_utc(self.date).is_some()
    }

    /// The row that the envelope is first cached as.
    pub fn to_row(&self, id: i64, account_id: i64, folder_id: i64) -> (out: Option<Email>)
        ensures
            match out {
                Some(row) => row_of(id, account_id, folder_id, self@) == Some(row@),
                None => row_of(id, account_id, folder_id, self@) is None,
            },
    {
        match format_rfc3339_utc(self.date) {
            None => None,
            Some(date) => Some(
                Email {
                    id,
                    account_id,
                    folder_id,
                    remote_id: self.id.clone(),
                    message_id: Some(self.message_id.clone()),
                    subject: Some(self.subject.clone()),
                    sender_name: clone_opt_text(&self.sender_name),
                    sender_address: self.sender_address.clone(),
                    date,
                    flags: self.flags_json(),
                    snippet: None,
                    has_attachments: false,
                },
            ),
        }
    }
}

} // verus!
