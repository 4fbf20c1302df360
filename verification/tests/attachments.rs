use mailsync::attachments::{attachment_name, locate, store_step, AttachmentError, StoreStep};

#[test]
fn attachment_name_is_sha256_in_hex() {
    assert_eq!(
        attachment_name(b"hello world"),
        "b94d27b9934d3e08a52e52d7da7dabfac484efe37a5380ee9088f7ace2efcde9"
    );
    assert_eq!(
        attachment_name(b""),
        "e3b0c44298fc1c149afbf4c8996fb92427ae41e4649b934ca495991b7852b855"
    );
}

#[test]
fn equal_content_is_stored_once() {
    assert_eq!(attachment_name(b"same bytes"), attachment_name(b"same bytes"));
    assert_ne!(attachment_name(b"same bytes"), attachment_name(b"other bytes"));
    assert_eq!(store_step(false), StoreStep::Write);
    assert_eq!(store_step(true), StoreStep::Keep);
}

#[test]
fn missing_content_is_reported() {
    assert_eq!(locate(true), Ok(()));
    assert_eq!(locate(false), Err(AttachmentError::NotFound));
    assert_eq!(AttachmentError::NotFound.message(), "Attachment file not found on disk");
}

#[test]
fn attachment_name_has_64_lower_case_digits() {
    for data in [&b""[..], &b"x"[..], &[255u8; 300][..]] {
        let name = attachment_name(data);
        assert_eq!(name.len(), 64);
        assert!(name.chars().all(|c| c.is_ascii_digit() || ('a'..='f').contains(&c)));
    }
}
