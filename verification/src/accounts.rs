//! Mail accounts and the registry that lists them.
//!
//! An account is one of a closed set of providers. Each can say who it
//! is, which endpoints it connects to, and what is left of it once its
//! secrets are taken out.

use vstd::prelude::*;
use crate::text::{clone_opt_text, opt_text};

verus! {

/// An account with an IMAP and an SMTP server of its own.
#[derive(Debug)]
pub struct ImapSmtpAccount {
    pub id: Option<i64>,
    pub email: String,
    pub name: Option<String>,
    pub imap_host: String,
    pub imap_port: u16,
    pub imap_username: String,
    /// `"tls"`, `"starttls"` or `"none"`.
    pub imap_encryption: String,
    pub smtp_host: String,
    pub smtp_port: u16,
    pub smtp_username: String,
    /// `"tls"`, `"starttls"` or `"none"`.
    pub smtp_encryption: String,
    pub smtp_use_imap_credentials: bool,
    pub password: Option<String>,
    pub smtp_password: Option<String>,
}

/// A Google account, which signs in with tokens.
#[derive(Debug)]
pub struct GoogleAccount {
    pub id: Option<i64>,
    pub email: String,
    pub name: Option<String>,
    pub access_token: Option<String>,
    pub refresh_token: Option<String>,
}

/// A mail account.
#[derive(Debug)]
pub enum Account {
    Google(GoogleAccount),
    ImapSmtp(ImapSmtpAccount),
}

/// The accounts that the application knows, in the order in which they
/// were added.
#[derive(Debug)]
pub struct AccountRegistry {
    pub accounts: Vec<Account>,
}

/// How a connection is protected.
#[derive(Clone, Copy, Debug, PartialEq, Eq, Structural)]
pub enum Encryption {
    Tls,
    StartTls,
    Plain,
}

/// What a connection signs in with.
#[derive(Debug)]
pub enum Secret {
    Password(String),
    AccessToken(String),
}

/// One server of an account and how to sign in to it.
#[derive(Debug)]
pub struct Endpoint {
    pub host: String,
    pub port: u16,
    pub login: String,
    pub encryption: Encryption,
    pub secret: Secret,
}

/// What is needed to reach the servers of an account.
#[derive(Debug)]
pub struct AccountConfigs {
    pub email: String,
    pub display_name: Option<String>,
    pub imap: Endpoint,
    pub smtp: Endpoint,
}

/// Why an account cannot be used or found.
#[derive(Clone, Copy, Debug, PartialEq, Eq, Structural)]
pub enum AccountError {
    /// The account holds no secret to sign in with.
    MissingCredentials,
    /// The account names a kind of encryption that is not known.
    UnknownEncryption,
    /// The registry has no account at the index.
    IndexOutOfBounds,
    /// The registry has no account with the identifier.
    NotFound,
}

/// The host of Google's IMAP server.
pub open spec fn google_imap_host() -> Seq<char> {
    "imap.gmail.com"@
}

/// The host of Google's SMTP server.
pub open spec fn google_smtp_host() -> Seq<char> {
    "smtp.gmail.com"@
}

/// The kind of encryption that a word of an account's settings names.
pub open spec fn encryption_named(word: Seq<char>) -> Option<Encryption> {
    if word == "tls"@ {
        Some(Encryption::Tls)
    } else if word == "starttls"@ {
        Some(Encryption::StartTls)
    } else if word == "none"@ {
        Some(Encryption::Plain)
    } else {
        None
    }
}

/// What a [`Secret`] holds.
pub enum SecretView {
    Password(Seq<char>),
    AccessToken(Seq<char>),
}

/// What an [`Endpoint`] holds.
pub struct EndpointView {
    pub host: Seq<char>,
    pub port: u16,
    pub login: Seq<char>,
    pub encryption: Encryption,
    pub secret: SecretView,
}

/// What [`AccountConfigs`] hold.
pub struct AccountConfigsView {
    pub email: Seq<char>,
    pub display_name: Option<Seq<char>>,
    pub imap: EndpointView,
    pub smtp: EndpointView,
}

impl View for Secret {
    type V = SecretView;

    open spec fn view(&self) -> SecretView {
        match self {
            Secret::Password(p) => SecretView::Password(p@),
            Secret::AccessToken(t) => SecretView::AccessToken(t@),
        }
    }
}

impl View for Endpoint {
    type V = EndpointView;

    open spec fn view(&self) -> EndpointView {
        EndpointView {
            host: self.host@,
            port: self.port,
            login: self.login@,
            encryption: self.encryption,
            secret: self.secret@,
        }
    }
}

impl View for AccountConfigs {
    type V = AccountConfigsView;

    open spec fn view(&self) -> AccountConfigsView {
        AccountConfigsView {
            email: self.email@,
            display_name: opt_text(self.display_name),
            imap: self.imap@,
            smtp: self.smtp@,
        }
    }
}

/// What an [`ImapSmtpAccount`] holds.
pub struct ImapSmtpAccountView {
    pub id: Option<i64>,
    pub email: Seq<char>,
    pub name: Option<Seq<char>>,
    pub imap_host: Seq<char>,
    pub imap_port: u16,
    pub imap_username: Seq<char>,
    pub imap_encryption: Seq<char>,
    pub smtp_host: Seq<char>,
    pub smtp_port: u16,
    pub smtp_username: Seq<char>,
    pub smtp_encryption: Seq<char>,
    pub smtp_use_imap_credentials: bool,
    pub password: Option<Seq<char>>,
    pub smtp_password: Option<Seq<char>>,
}

/// What a [`GoogleAccount`] holds.
pub struct GoogleAccountView {
    pub id: Option<i64>,
    pub email: Seq<char>,
    pub name: Option<Seq<char>>,
    pub access_token: Option<Seq<char>>,
    pub refresh_token: Option<Seq<char>>,
}

/// What an [`Account`] holds.
pub enum AccountView {
    Google(GoogleAccountView),
    ImapSmtp(ImapSmtpAccountView),
}

impl View for ImapSmtpAccount {
    type V = ImapSmtpAccountView;

    open spec fn view(&self) -> ImapSmtpAccountView {
        ImapSmtpAccountView {
            id: self.id,
            email: self.email@,
            name: opt_text(self.name),
            imap_host: self.imap_host@,
            imap_port: self.imap_port,
            imap_username: self.imap_username@,
            imap_encryption: self.imap_encryption@,
            smtp_host: self.smtp_host@,
            smtp_port: self.smtp_port,
            smtp_username: self.smtp_username@,
            smtp_encryption: self.smtp_encryption@,
            smtp_use_imap_credentials: self.smtp_use_imap_credentials,
            password: opt_text(self.password),
            smtp_password: opt_text(self.smtp_password),
        }
    }
}

impl View for GoogleAccount {
    type V = GoogleAccountView;

    open spec fn view(&self) -> GoogleAccountView {
        GoogleAccountView {
            id: self.id,
            email: self.email@,
            name: opt_text(self.name),
            access_token: opt_text(self.access_token),
            refresh_token: opt_text(self.refresh_token),
        }
    }
}

impl View for Account {
    type V = AccountView;

    open spec fn view(&self) -> AccountView {
        match self {
            Account::Google(g) => AccountView::Google(g@),
            Account::ImapSmtp(a) => AccountView::ImapSmtp(a@),
        }
    }
}

impl ImapSmtpAccountView {
    /// The password that the SMTP server is given: that of the IMAP
    /// server where the account says so, else its own.
    pub open spec fn smtp_secret(self) -> Option<Seq<char>> {
        if self.smtp_use_imap_credentials {
            self.password
        } else {
            self.smtp_password
        }
    }

    /// The account without its passwords.
    pub open spec fn stripped(self) -> ImapSmtpAccountView {
        ImapSmtpAccountView { password: None, smtp_password: None, ..self }
    }

    /// How the servers of the account are reached.
    pub open spec fn configs(self) -> Result<AccountConfigsView, AccountError> {
        match (encryption_named(self.imap_encryption), encryption_named(self.smtp_encryption)) {
            (Some(imap_encryption), Some(smtp_encryption)) => match (
                self.password,
                self.smtp_secret(),
            ) {
                (Some(password), Some(smtp_password)) => Ok(
                    AccountConfigsView {
                        email: self.email,
                        display_name: self.name,
                        imap: EndpointView {
                            host: self.imap_host,
                            port: self.imap_port,
                            login: self.imap_username,
                            encryption: imap_encryption,
                            secret: SecretView::Password(password),
                        },
                        smtp: EndpointView {
                            host: self.smtp_host,
                            port: self.smtp_port,
                            login: self.smtp_username,
                            encryption: smtp_encryption,
                            secret: SecretView::Password(smtp_password),
                        },
                    },
                ),
                _ => Err(AccountError::MissingCredentials),
            },
            _ => Err(AccountError::UnknownEncryption),
        }
    }
}

impl GoogleAccountView {
    /// The account without its tokens.
    pub open spec fn stripped(self) -> GoogleAccountView {
        GoogleAccountView { access_token: None, refresh_token: None, ..self }
    }

    /// How Google's servers are reached with the account's access token.
    pub open spec fn configs(self) -> Result<AccountConfigsView, AccountError> {
        match self.access_token {
            Some(token) => Ok(
                AccountConfigsView {
                    email: self.email,
                    display_name: self.name,
                    imap: EndpointView {
                        host: google_imap_host(),
                        port: 993,
                        login: self.email,
                        encryption: Encryption::Tls,
                        secret: SecretView::AccessToken(token),
                    },
                    smtp: EndpointView {
                        host: google_smtp_host(),
                        port: 465,
                        login: self.email,
                        encryption: Encryption::Tls,
                        secret: SecretView::AccessToken(token),
                    },
                },
            ),
            None => Err(AccountError::MissingCredentials),
        }
    }
}

impl AccountView {
    /// The identifier of the account in the local cache, once it has one.
    pub open spec fn id(self) -> Option<i64> {
        match self {
            AccountView::Google(g) => g.id,
            AccountView::ImapSmtp(a) => a.id,
        }
    }

    /// The address of the account.
    pub open spec fn email(self) -> Seq<char> {
        match self {
            AccountView::Google(g) => g.email,
            AccountView::ImapSmtp(a) => a.email,
        }
    }

    /// The account without its secrets.
    pub open spec fn stripped(self) -> AccountView {
        match self {
            AccountView::Google(g) => AccountView::Google(g.stripped()),
            AccountView::ImapSmtp(a) => AccountView::ImapSmtp(a.stripped()),
        }
    }

    /// How the servers of the account are reached.
    pub open spec fn configs(self) -> Result<AccountConfigsView, AccountError> {
        match self {
            AccountView::Google(g) => g.configs(),
            AccountView::ImapSmtp(a) => a.configs(),
        }
    }
}

/// Reads the kind of encryption that an account's settings name.
pub fn parse_encryption(word: &String) -> (kind: Option<Encryption>)
    ensures
        kind == encryption_named(word@),
{
    if *word == "tls".to_owned() {
        Some(Encryption::Tls)
    } else if *word == "starttls".to_owned() {
        Some(Encryption::StartTls)
    } else if *word == "none".to_owned() {
        Some(Encryption::Plain)
    } else {
        None
    }
}

impl Clone for ImapSmtpAccount {
    fn clone(&self) -> (copy: ImapSmtpAccount)
        ensures
            copy@ == self@,
    {
        ImapSmtpAccount {
            id: self.id,
            email: self.email.clone(),
            name: clone_opt_text(&self.name),
            imap_host: self.imap_host.clone(),
            imap_port: self.imap_port,
            imap_username: self.imap_username.clone(),
            imap_encryption: self.imap_encryption.clone(),
            smtp_host: self.smtp_host.clone(),
            smtp_port: self.smtp_port,
            smtp_username: self.smtp_username.clone(),
            smtp_encryption: self.smtp_encryption.clone(),
            smtp_use_imap_credentials: self.smtp_use_imap_credentials,
            password: clone_opt_text(&self.password),
            smtp_password: clone_opt_text(&self.smtp_password),
        }
    }
}

impl Clone for GoogleAccount {
    fn clone(&self) -> (copy: GoogleAccount)
        ensures
            copy@ == self@,
    {
        GoogleAccount {
            id: self.id,
            email: self.email.clone(),
            name: clone_opt_text(&self.name),
            access_token: clone_opt_text(&self.access_token),
            refresh_token: clone_opt_text(&self.refresh_token),
        }
    }
}

impl Clone for Account {
    fn clone(&self) -> (copy: Account)
        ensures
            copy@ == self@,
    {
        match self {
            Account::Google(g) => Account::Google(g.clone()),
            Account::ImapSmtp(a) => Account::ImapSmtp(a.clone()),
        }
    }
}

impl ImapSmtpAccount {
    /// How the servers of the account are reached.
    pub fn get_configs(&self) -> (out: Result<AccountConfigs, AccountError>)
        ensures
            match out {
                Ok(configs) => self@.configs() == Ok::<AccountConfigsView, AccountError>(configs@),
                Err(e) => self@.configs() == Err::<AccountConfigsView, AccountError>(e),
            },
    {
        let imap_encryption = match parse_encryption(&self.imap_encryption) {
            Some(kind) => kind,
            None => {
                return Err(AccountError::UnknownEncryption);
            },
        };
        let smtp_encryption = match parse_encryption(&self.smtp_encryption) {
            Some(kind) => kind,
            None => {
                return Err(AccountError::UnknownEncryption);
            },
        };
        let password = match &self.password {
            Some(p) => p.clone(),
            None => {
                return Err(AccountError::MissingCredentials);
            },
        };
        let smtp_choice = if self.smtp_use_imap_credentials {
            &self.password
        } else {
            &self.smtp_password
        };
        let smtp_password = match smtp_choice {
            Some(p) => p.clone(),
            None => {
                return Err(AccountError::MissingCredentials);
            },
        };
        Ok(
            AccountConfigs {
                email: self.email.clone(),
                display_name: clone_opt_text(&self.name),
                imap: Endpoint {
                    host: self.imap_host.clone(),
                    port: self.imap_port,
                    login: self.imap_username.clone(),
                    encryption: imap_encryption,
                    secret: Secret::Password(password),
                },
                smtp: Endpoint {
                    host: self.smtp_host.clone(),
                    port: self.smtp_port,
                    login: self.smtp_username.clone(),
                    encryption: smtp_encryption,
                    secret: Secret::Password(smtp_password),
                },
            },
        )
    }
}

impl GoogleAccount {
    /// How Google's servers are reached with the account's access token.
    pub fn get_configs(&self) -> (out: Result<AccountConfigs, AccountError>)
        ensures
            match out {
                Ok(configs) => self@.configs() == Ok::<AccountConfigsView, AccountError>(configs@),
                Err(e) => self@.configs() == Err::<AccountConfigsView, AccountError>(e),
            },
    {
        match &self.access_token {
            None => Err(AccountError::MissingCredentials),
            Some(token) => Ok(
                AccountConfigs {
                    email: self.email.clone(),
                    display_name: clone_opt_text(&self.name),
                    imap: Endpoint {
                        host: "imap.gmail.com".to_owned(),
                        port: 993,
                        login: self.email.clone(),
                        encryption: Encryption::Tls,
                        secret: Secret::AccessToken(token.clone()),
                    },
                    smtp: Endpoint {
                        host: "smtp.gmail.com".to_owned(),
                        port: 465,
                        login: self.email.clone(),
                        encryption: Encryption::Tls,
                        secret: Secret::AccessToken(token.clone()),
                    },
                },
            ),
        }
    }
}

impl Account {
    /// The identifier of the account in the local cache, once it has one.
    pub fn id(&self) -> (id: Option<i64>)
        ensures
            id == self@.id(),
    {
        match self {
            Account::Google(g) => g.id,
            Account::ImapSmtp(a) => a.id,
        }
    }

    /// The address of the account.
    pub fn email(&self) -> (email: &String)
        ensures
            email@ == self@.email(),
    {
        match self {
            Account::Google(g) => &g.email,
            Account::ImapSmtp(a) => &a.email,
        }
    }

    /// How the servers of the account are reached.
    pub fn get_configs(&self) -> (out: Result<AccountConfigs, AccountError>)
        ensures
            match out {
                Ok(configs) => self@.configs() == Ok::<AccountConfigsView, AccountError>(configs@),
                Err(e) => self@.configs() == Err::<AccountConfigsView, AccountError>(e),
            },
    {
        match self {
            Account::Google(g) => g.get_configs(),
            Account::ImapSmtp(a) => a.get_configs(),
        }
    }

    /// Takes the secrets out of the account: passwords and tokens.
    pub fn strip_secrets(&mut self)
        ensures
            final(self)@ == old(self)@.stripped(),
    {
        match self {
            Account::Google(g) => {
                g.access_token = None;
                g.refresh_token = None;
            },
            Account::ImapSmtp(a) => {
                a.password = None;
                a.smtp_password = None;
            },
        }
    }
}

impl AccountError {
    /// The words for the error.
    pub fn message(&self) -> (text: String)
        ensures
            text@ == match *self {
                AccountError::MissingCredentials => "Account credentials missing"@,
                AccountError::UnknownEncryption => "Unknown encryption"@,
                AccountError::IndexOutOfBounds => "Account index out of bounds"@,
                AccountError::NotFound => "Account not found"@,
            },
    {
        match self {
            AccountError::MissingCredentials => "Account credentials missing".to_owned(),
            AccountError::UnknownEncryption => "Unknown encryption".to_owned(),
            AccountError::IndexOutOfBounds => "Account index out of bounds".to_owned(),
            AccountError::NotFound => "Account not found".to_owned(),
        }
    }
}

/// What each account of a list holds.
pub open spec fn account_views(accounts: Seq<Account>) -> Seq<AccountView> {
    Seq::new(accounts.len(), |i: int| accounts[i]@)
}

impl View for AccountRegistry {
    type V = Seq<AccountView>;

    open spec fn view(&self) -> Seq<AccountView> {
        account_views(self.accounts@)
    }
}

impl Default for AccountRegistry {
    fn default() -> (registry: AccountRegistry)
        ensures
            registry@ == Seq::<AccountView>::empty(),
    {
        let registry = AccountRegistry { accounts: Vec::new() };
        assert(registry@ =~= Seq::<AccountView>::empty());
        registry
    }
}

/// The index of the first account with the address `email`, or the
/// number of accounts if there is none.
pub open spec fn first_with_email(accounts: Seq<AccountView>, email: Seq<char>) -> int
    decreases accounts.len(),
{
    if accounts.len() == 0 {
        0
    } else if accounts[0].email() == email {
        0
    } else {
        1 + first_with_email(accounts.drop_first(), email)
    }
}

/// The index of the first account with the identifier `id`, or the
/// number of accounts if there is none.
pub open spec fn first_with_id(accounts: Seq<AccountView>, id: i64) -> int
    decreases accounts.len(),
{
    if accounts.len() == 0 {
        0
    } else if accounts[0].id() == Some(id) {
        0
    } else {
        1 + first_with_id(accounts.drop_first(), id)
    }
}

/// The first account with a given address comes after accounts with
/// other addresses only.
pub proof fn lemma_first_with_email(accounts: Seq<AccountView>, email: Seq<char>)
    ensures
        0 <= first_with_email(accounts, email) <= accounts.len(),
        first_with_email(accounts, email) < accounts.len() ==> accounts[first_with_email(
            accounts,
            email,
        )].email() == email,
        forall|i: int|
            0 <= i < first_with_email(accounts, email) ==> (#[trigger] accounts[i]).email()
                != email,
    decreases accounts.len(),
{
    if accounts.len() > 0 && accounts[0].email() != email {
        let rest = accounts.drop_first();
        lemma_first_with_email(rest, email);
        assert forall|i: int| 0 <= i < first_with_email(accounts, email) implies (
        #[trigger] accounts[i]).email() != email by {
            if i > 0 {
                assert(accounts[i] == rest[i - 1]);
            }
        }
    }
}

/// The first account with a given identifier comes after accounts with
/// other identifiers only.
pub proof fn lemma_first_with_id(accounts: Seq<AccountView>, id: i64)
    ensures
        0 <= first_with_id(accounts, id) <= accounts.len(),
        first_with_id(accounts, id) < accounts.len() ==> accounts[first_with_id(accounts, id)].id()
            == Some(id),
        forall|i: int|
            0 <= i < first_with_id(accounts, id) ==> (#[trigger] accounts[i]).id() != Some(id),
    decreases accounts.len(),
{
    if accounts.len() > 0 && accounts[0].id() != Some(id) {
        let rest = accounts.drop_first();
        lemma_first_with_id(rest, id);
        assert forall|i: int| 0 <= i < first_with_id(accounts, id) implies (
        #[trigger] accounts[i]).id() != Some(id) by {
            if i > 0 {
                assert(accounts[i] == rest[i - 1]);
            }
        }
    }
}

/// An index that comes after accounts with other addresses only, and at
/// an account with the address or at the end, is the first with it.
proof fn lemma_is_first_with_email(accounts: Seq<AccountView>, email: Seq<char>, at: int)
    requires
        0 <= at <= accounts.len(),
        forall|i: int| 0 <= i < at ==> (#[trigger] accounts[i]).email() != email,
        at < accounts.len() ==> accounts[at].email() == email,
    ensures
        first_with_email(accounts, email) == at,
    decreases accounts.len(),
{
    if accounts.len() > 0 && at > 0 {
        let rest = accounts.drop_first();
        assert(accounts[0].email() != email);
        assert forall|i: int| 0 <= i < at - 1 implies (#[trigger] rest[i]).email() != email by {
            assert(rest[i] == accounts[i + 1]);
        }
        lemma_is_first_with_email(rest, email, at - 1);
    }
}

/// An index that comes after accounts with other identifiers only, and at
/// an account with the identifier or at the end, is the first with it.
proof fn lemma_is_first_with_id(accounts: Seq<AccountView>, id: i64, at: int)
    requires
        0 <= at <= accounts.len(),
        forall|i: int| 0 <= i < at ==> (#[trigger] accounts[i]).id() != Some(id),
        at < accounts.len() ==> accounts[at].id() == Some(id),
    ensures
        first_with_id(accounts, id) == at,
    decreases accounts.len(),
{
    if accounts.len() > 0 && at > 0 {
        let rest = accounts.drop_first();
        assert(accounts[0].id() != Some(id));
        assert forall|i: int| 0 <= i < at - 1 implies (#[trigger] rest[i]).id() != Some(id) by {
            assert(rest[i] == accounts[i + 1]);
        }
        lemma_is_first_with_id(rest, id, at - 1);
    }
}

impl AccountRegistry {
    /// Adds an account at the end.
    pub fn add_account(&mut self, account: Account)
        ensures
            final(self)@ == old(self)@.push(account@),
    {
        self.accounts.push(account);
        assert(self@ =~= old(self)@.push(account@));
    }

    /// Takes the account at `index` out, if there is one.
    pub fn remove_account(&mut self, index: usize) -> (out: Result<(), AccountError>)
        ensures
            match out {
                Ok(_) => index < old(self)@.len() && final(self)@ == old(self)@.remove(
                    index as int,
                ),
                Err(e) => index >= old(self)@.len() && e == AccountError::IndexOutOfBounds
                    && final(self)@ == old(self)@,
            },
    {
        if index < self.accounts.len() {
            let _ = self.accounts.remove(index);
            assert(self@ =~= old(self)@.remove(index as int));
            Ok(())
        } else {
            Err(AccountError::IndexOutOfBounds)
        }
    }

    /// The first account with the address `email`.
    pub fn find_by_email(&self, email: &String) -> (found: Option<&Account>)
        ensures
            match found {
                Some(account) => first_with_email(self@, email@) < self@.len() && account@
                    == self@[first_with_email(self@, email@)],
                None => first_with_email(self@, email@) == self@.len(),
            },
    {
        let mut i: usize = 0;
        while i < self.accounts.len()
            invariant
                i <= self.accounts.len(),
                forall|j: int| 0 <= j < i ==> (#[trigger] self@[j]).email() != email@,
            decreases self.accounts.len() - i,
        {
            if *self.accounts[i].email() == *email {
                proof {
                    lemma_is_first_with_email(self@, email@, i as int);
                }
                return Some(&self.accounts[i]);
            }
            i = i + 1;
        }
        proof {
            lemma_is_first_with_email(self@, email@, i as int);
        }
        None
    }

    /// The first account with the identifier `id`.
    pub fn get_account_by_id(&self, id: i64) -> (out: Result<&Account, AccountError>)
        ensures
            match out {
                Ok(account) => first_with_id(self@, id) < self@.len() && account@
                    == self@[first_with_id(self@, id)],
                Err(e) => first_with_id(self@, id) == self@.len() && e == AccountError::NotFound,
            },
    {
        let mut i: usize = 0;
        while i < self.accounts.len()
            invariant
                i <= self.accounts.len(),
                forall|j: int| 0 <= j < i ==> (#[trigger] self@[j]).id() != Some(id),
            decreases self.accounts.len() - i,
        {
            let found = match self.accounts[i].id() {
                Some(candidate) => candidate == id,
                None => false,
            };
            if found {
                proof {
                    lemma_is_first_with_id(self@, id, i as int);
                }
                return Ok(&self.accounts[i]);
            }
            i = i + 1;
        }
        proof {
            lemma_is_first_with_id(self@, id, i as int);
        }
        Err(AccountError::NotFound)
    }

    /// Takes the secrets out of every account.
    pub fn strip_secrets(&mut self)
        ensures
            final(self)@.len() == old(self)@.len(),
            forall|i: int|
                0 <= i < old(self)@.len() ==> #[trigger] final(self)@[i] == old(self)@[i].stripped(),
    {
        let mut i: usize = 0;
        while i < self.accounts.len()
            invariant
                i <= self.accounts.len(),
                self@.len() == old(self)@.len(),
                forall|j: int| 0 <= j < i ==> #[trigger] self@[j] == old(self)@[j].stripped(),
                forall|j: int| i <= j < self@.len() ==> #[trigger] self@[j] == old(self)@[j],
            decreases self.accounts.len() - i,
        {
            let ghost before = self.accounts@;
            self.accounts[i].strip_secrets();
            proof {
                assert(self.accounts@.len() == before.len());
                assert(self.accounts@[i as int]@ == before[i as int]@.stripped());
                assert forall|j: int| 0 <= j < before.len() && j != i implies self.accounts@[j]
                    == before[j] by {}
                assert forall|j: int| 0 <= j < i + 1 implies #[trigger] self@[j] == old(
                    self,
                )@[j].stripped() by {
                    if j < i {
                        assert(self.accounts@[j] == before[j]);
                        assert(self@[j] == account_views(before)[j]);
                    } else {
                        assert(account_views(before)[j] == old(self)@[j]);
                    }
                }
                assert forall|j: int| i + 1 <= j < self@.len() implies #[trigger] self@[j] == old(
                    self,
                )@[j] by {
                    assert(self.accounts@[j] == before[j]);
                    assert(self@[j] == account_views(before)[j]);
                }
            }
            i = i + 1;
        }
    }
}

} // verus!
