//! Attachment content is stored once for each distinct content: under a
//! name made from the content alone.

use vstd::prelude::*;
use crate::security::hex_encoded;
use sha2::Digest;

verus! {

/// The SHA-256 digest of some bytes.
pub uninterp spec fn sha256_digest(data: Seq<u8>) -> Seq<u8>;

/// The name under which content is stored: its SHA-256 digest in
/// lower-case hexadecimal digits.
pub open spec fn content_name(data: Seq<u8>) -> Seq<char> {
    hex_encoded(sha256_digest(data))
}

/// Why attachment content could not be handed out.
#[derive(Clone, Copy, Debug, PartialEq, Eq, Structural)]
pub enum AttachmentError {
    /// No content is stored under the name.
    NotFound,
}

/// Feeds the bytes to a `Sha256` hasher of sha2 (`new`, `update`,
/// `finalize`) and formats the digest with `{:x}`. Trusted: the digest is
/// a function of the bytes alone and has 32 bytes, and the text holds two
/// lower-case hexadecimal digits for each byte of it, the high half
/// first.
#[verifier::external_body]
fn sha256_hex(data: &[u8]) -> (text: String)
    ensures
        text@ == hex_encoded(sha256_digest(data@)),
        text@.len() == 64,
{
    let mut hasher = sha2::Sha256::new();
    hasher.update(data);
    format!("{:x}", hasher.finalize())
}

/// The name under which content is stored: 64 digits.
pub fn attachment_name(data: &[u8]) -> (name: String)
    ensures
        name@ == content_name(data@),
        name@.len() == 64,
        sha256_digest(data@).len() == 32,
{
    sha256_hex(data)
}

/// What is to be done to store content under its name.
#[derive(Clone, Copy, Debug, PartialEq, Eq, Structural)]
pub enum StoreStep {
    /// The content is stored already: nothing is written.
    Keep,
    /// The content is written under its name.
    Write,
}

/// Decides whether content has to be written, given whether something is
/// stored under its name already. Equal content has equal names, so what
/// is stored is the same content, and it is written once only.
pub fn store_step(already_stored: bool) -> (step: StoreStep)
    ensures
        step == if already_stored {
            StoreStep::Keep
        } else {
            StoreStep::Write
        },
{
    if already_stored {
        StoreStep::Keep
    } else {
        StoreStep::Write
    }
}

/// Decides whether stored content can be handed out, given whether
/// something is stored under the name.
pub fn locate(stored: bool) -> (out: Result<(), AttachmentError>)
    ensures
        out == if stored {
            Ok::<(), AttachmentError>(())
        } else {
            Err::<(), AttachmentError>(AttachmentError::NotFound)
        },
{
    if stored {
        Ok(())
    } else {
        Err(AttachmentError::NotFound)
    }
}

impl AttachmentError {
    /// The words for the error.
    pub fn message(&self) -> (text: String)
        ensures
            text@ == "Attachment file not found on disk"@,
    {
        "Attachment file not found on disk".to_owned()
    }
}

} // verus!
