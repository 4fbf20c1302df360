use mailsync::accounts::{
    parse_encryption, Account, AccountError, AccountRegistry, Encryption, GoogleAccount,
    ImapSmtpAccount, Secret,
};

fn imap_account(id: Option<i64>, email: &str) -> ImapSmtpAccount {
    ImapSmtpAccount {
        id,
        email: email.to_string(),
        name: Some("Ann".to_string()),
        imap_host: "imap.example.com".to_string(),
        imap_port: 993,
        imap_username: "ann".to_string(),
        imap_encryption: "tls".to_string(),
        smtp_host: "smtp.example.com".to_string(),
        smtp_port: 587,
        smtp_username: "ann-out".to_string(),
        smtp_encryption: "starttls".to_string(),
        smtp_use_imap_credentials: true,
        password: Some("secret".to_string()),
        smtp_password: Some("other".to_string()),
    }
}

fn google_account(id: Option<i64>, email: &str) -> GoogleAccount {
    GoogleAccount {
        id,
        email: email.to_string(),
        name: None,
        access_token: Some("token".to_string()),
        refresh_token: Some("refresh".to_string()),
    }
}

fn password(secret: &Secret) -> &str {
    match secret {
        Secret::Password(p) => p,
        Secret::AccessToken(_) => panic!("token where a password is expected"),
    }
}

#[test]
fn imap_configs_use_the_right_password() {
    let mut account = imap_account(Some(1), "ann@example.com");
    let configs = account.get_configs().unwrap();
    assert_eq!(configs.email, "ann@example.com");
    assert_eq!(configs.display_name.as_deref(), Some("Ann"));
    assert_eq!(configs.imap.host, "imap.example.com");
    assert_eq!(configs.imap.port, 993);
    assert_eq!(configs.imap.login, "ann");
    assert_eq!(configs.imap.encryption, Encryption::Tls);
    assert_eq!(password(&configs.imap.secret), "secret");
    assert_eq!(configs.smtp.host, "smtp.example.com");
    assert_eq!(configs.smtp.port, 587);
    assert_eq!(configs.smtp.login, "ann-out");
    assert_eq!(configs.smtp.encryption, Encryption::StartTls);
    assert_eq!(password(&configs.smtp.secret), "secret");

    account.smtp_use_imap_credentials = false;
    assert_eq!(password(&account.get_configs().unwrap().smtp.secret), "other");
}

#[test]
fn imap_configs_errors() {
    let mut account = imap_account(Some(1), "ann@example.com");
    account.imap_encryption = "ssl".to_string();
    assert_eq!(account.get_configs().err(), Some(AccountError::UnknownEncryption));
    let mut account = imap_account(Some(1), "ann@example.com");
    account.smtp_encryption = "TLS".to_string();
    assert_eq!(account.get_configs().err(), Some(AccountError::UnknownEncryption));
    let mut account = imap_account(Some(1), "ann@example.com");
    account.password = None;
    assert_eq!(account.get_configs().err(), Some(AccountError::MissingCredentials));
    let mut account = imap_account(Some(1), "ann@example.com");
    account.smtp_use_imap_credentials = false;
    account.smtp_password = None;
    assert_eq!(account.get_configs().err(), Some(AccountError::MissingCredentials));
}

#[test]
fn google_configs() {
    let account = Account::Google(google_account(Some(2), "bob@gmail.com"));
    let configs = account.get_configs().unwrap();
    assert_eq!(configs.imap.host, "imap.gmail.com");
    assert_eq!(configs.imap.port, 993);
    assert_eq!(configs.smtp.host, "smtp.gmail.com");
    assert_eq!(configs.smtp.port, 465);
    assert_eq!(configs.imap.login, "bob@gmail.com");
    assert!(matches!(&configs.imap.secret, Secret::AccessToken(t) if t == "token"));
    let mut bare = google_account(Some(2), "bob@gmail.com");
    bare.access_token = None;
    assert_eq!(bare.get_configs().err(), Some(AccountError::MissingCredentials));
}

#[test]
fn encryption_words() {
    assert_eq!(parse_encryption(&"tls".to_string()), Some(Encryption::Tls));
    assert_eq!(parse_encryption(&"starttls".to_string()), Some(Encryption::StartTls));
    assert_eq!(parse_encryption(&"none".to_string()), Some(Encryption::Plain));
    assert_eq!(parse_encryption(&"".to_string()), None);
}

#[test]
fn strip_secrets_takes_passwords_and_tokens() {
    let mut registry = AccountRegistry::default();
    registry.add_account(Account::ImapSmtp(imap_account(Some(1), "ann@example.com")));
    registry.add_account(Account::Google(google_account(Some(2), "bob@gmail.com")));
    registry.strip_secrets();
    match &registry.accounts[0] {
        Account::ImapSmtp(a) => {
            assert_eq!(a.password, None);
            assert_eq!(a.smtp_password, None);
            assert_eq!(a.imap_username, "ann");
            assert_eq!(a.email, "ann@example.com");
        }
        _ => panic!("order changed"),
    }
    match &registry.accounts[1] {
        Account::Google(g) => {
            assert_eq!(g.access_token, None);
            assert_eq!(g.refresh_token, None);
            assert_eq!(g.email, "bob@gmail.com");
        }
        _ => panic!("order changed"),
    }
}

#[test]
fn registry_add_find_remove() {
    let mut registry = AccountRegistry::default();
    assert!(registry.accounts.is_empty());
    assert_eq!(registry.remove_account(0), Err(AccountError::IndexOutOfBounds));
    registry.add_account(Account::ImapSmtp(imap_account(None, "ann@example.com")));
    registry.add_account(Account::Google(google_account(Some(2), "bob@gmail.com")));
    registry.add_account(Account::ImapSmtp(imap_account(Some(2), "bob@gmail.com")));
    assert_eq!(registry.accounts[0].id(), None);
    assert_eq!(registry.accounts[1].email(), "bob@gmail.com");
    assert!(matches!(
        registry.find_by_email(&"bob@gmail.com".to_string()),
        Some(Account::Google(_))
    ));
    assert!(registry.find_by_email(&"BOB@gmail.com".to_string()).is_none());
    assert!(matches!(registry.get_account_by_id(2), Ok(Account::Google(_))));
    assert_eq!(registry.get_account_by_id(3).err(), Some(AccountError::NotFound));
    assert_eq!(registry.remove_account(3), Err(AccountError::IndexOutOfBounds));
    assert_eq!(registry.accounts.len(), 3);
    assert_eq!(registry.remove_account(1), Ok(()));
    assert_eq!(registry.accounts.len(), 2);
    assert!(matches!(registry.get_account_by_id(2), Ok(Account::ImapSmtp(_))));
    assert_eq!(AccountError::IndexOutOfBounds.message(), "Account index out of bounds");
}

#[test]
fn clones_keep_every_field() {
    let account = Account::ImapSmtp(imap_account(Some(4), "ann@example.com"));
    assert_eq!(format!("{:?}", account.clone()), format!("{:?}", account));
    let account = Account::Google(google_account(None, "bob@gmail.com"));
    assert_eq!(format!("{:?}", account.clone()), format!("{:?}", account));
}
