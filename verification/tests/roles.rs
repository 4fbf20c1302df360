use mailsync::sync::checkpoint::{FolderRole, LiveFolderState};
use mailsync::sync::roles::detect_role;

#[test]
fn server_attributes_come_first() {
    assert_eq!(detect_role(true, true, true, true, "Spam"), Some(FolderRole::Inbox));
    assert_eq!(detect_role(false, true, true, true, "Spam"), Some(FolderRole::Sent));
    assert_eq!(detect_role(false, false, true, true, "Spam"), Some(FolderRole::Drafts));
    assert_eq!(detect_role(false, false, false, true, "Spam"), Some(FolderRole::Trash));
}

#[test]
fn names_tell_spam_and_archive() {
    assert_eq!(detect_role(false, false, false, false, "[Gmail]/Spam"), Some(FolderRole::Spam));
    assert_eq!(detect_role(false, false, false, false, "JUNK E-Mail"), Some(FolderRole::Spam));
    assert_eq!(detect_role(false, false, false, false, "Archives"), Some(FolderRole::Archive));
    assert_eq!(detect_role(false, false, false, false, "[Gmail]/All Mail"), Some(FolderRole::Archive));
    assert_eq!(detect_role(false, false, false, false, "Spam archive"), Some(FolderRole::Spam));
    assert_eq!(detect_role(false, false, false, false, "Receipts"), None);
    assert_eq!(detect_role(false, false, false, false, "allmail"), None);
    assert_eq!(detect_role(false, false, false, false, ""), None);
}

#[test]
fn roles_are_stored_as_words() {
    let all = [
        (FolderRole::Inbox, "inbox"),
        (FolderRole::Sent, "sent"),
        (FolderRole::Drafts, "drafts"),
        (FolderRole::Trash, "trash"),
        (FolderRole::Spam, "spam"),
        (FolderRole::Archive, "archive"),
    ];
    for (role, word) in all {
        assert_eq!(role.as_word(), word);
        assert_eq!(FolderRole::from_word(&word.to_string()), Some(role));
    }
    assert_eq!(FolderRole::from_word(&"Inbox".to_string()), None);
    assert_eq!(FolderRole::from_word(&String::new()), None);
}

#[test]
fn missing_select_values_are_zero() {
    assert_eq!(
        LiveFolderState::from_select(None, Some(8), None),
        LiveFolderState { validity_token: 0, next_watermark: 8, total_count: 0 }
    );
    assert_eq!(
        LiveFolderState::from_select(Some(4), None, Some(2)),
        LiveFolderState { validity_token: 4, next_watermark: 0, total_count: 2 }
    );
}
