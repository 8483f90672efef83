//! SMTP settings, read from the environment (never from the contact book),
//! and the sender and recipient mailboxes of a message.
use vstd::prelude::*;

use crate::numbers::{digits_value, parse_u16, parse_u64, parsed_u16, parsed_u64};
use crate::text::{ascii_lower, is_blank, push_str, str_eq, str_is_blank};
use vstd::utf8::is_ascii_chars;

verus! {

/// How the SMTP connection is secured.
#[derive(Clone, Copy, Debug, PartialEq, Eq, Structural)]
pub enum Encryption {
    StartTls,
    Tls,
    /// No encryption (`none` in `SMTP_ENCRYPTION`).
    Plain,
}

/// The complete SMTP configuration.
#[derive(Clone, Debug)]
pub struct SmtpConfig {
    pub host: String,
    pub port: u16,
    pub username: Option<String>,
    pub password: Option<String>,
    pub from_address: String,
    /// The display name in the "From" header, independent of the address.
    pub from_name: Option<String>,
    pub encryption: Encryption,
    pub timeout_secs: u64,
}

/// The raw values of the SMTP environment variables; `None` for a variable
/// that is unset.
#[derive(Debug)]
pub struct SmtpEnv {
    pub host: Option<String>,
    pub port: Option<String>,
    pub username: Option<String>,
    pub password: Option<String>,
    pub from_address: Option<String>,
    pub from_name: Option<String>,
    pub encryption: Option<String>,
    pub timeout_secs: Option<String>,
}

/// Why the SMTP settings were refused.
#[derive(Debug)]
pub enum SmtpEnvError {
    /// A required variable is not set.
    MissingVariable { key: String },
    InvalidPort,
    /// `SMTP_ENCRYPTION`, lowercased, is none of starttls, tls, none.
    UnknownEncryption { value: String },
    InvalidTimeout,
    /// Exactly one of user name and password is set.
    CredentialsIncomplete,
}

/// What `str::to_lowercase` returns for `s`.
pub uninterp spec fn lowercase(s: Seq<char>) -> Seq<char>;

/// Calls `str::to_lowercase`; the contract ties the result to the name
/// `lowercase` of the argument, and for ASCII text states what the Unicode
/// lowercase mapping does there: `A`-`Z` become `a`-`z`, every other
/// character stays. Unicode's case rules beyond ASCII are not restated.
#[verifier::external_body]
fn to_lowercase(s: &str) -> (r: String)
    ensures
        r@ == lowercase(s@),
        is_ascii_chars(s@) ==> r@ == s@.map_values(|c: char| ascii_lower(c)),
{
    s.to_lowercase()
}

pub open spec fn opt_view(o: Option<String>) -> Option<Seq<char>> {
    crate::channels::opt_view(o)
}

/// The value unless it is missing or blank (it is kept untrimmed).
pub open spec fn filled(v: Option<Seq<char>>) -> Option<Seq<char>> {
    match v {
        Some(s) => if is_blank(s) {
            None
        } else {
            Some(s)
        },
        None => None,
    }
}

pub open spec fn or_default(v: Option<Seq<char>>, d: Seq<char>) -> Seq<char> {
    match v {
        Some(s) => s,
        None => d,
    }
}

/// The encryption that the lowercased value names.
pub open spec fn encryption_named(lower: Seq<char>) -> Option<Encryption> {
    if lower == "starttls"@ {
        Some(Encryption::StartTls)
    } else if lower == "tls"@ {
        Some(Encryption::Tls)
    } else if lower == "none"@ {
        Some(Encryption::Plain)
    } else {
        None
    }
}

/// Which of the checks, in the order in which they run, refuses the
/// settings: the host, the port (default 587), the sender address, the
/// encryption (default starttls), the timeout (default 30 seconds) and
/// whether user name and password are both set or both missing.
pub open spec fn env_refusal(env: SmtpEnv) -> Option<SmtpEnvErrorKind> {
    if env.host is None {
        Some(SmtpEnvErrorKind::MissingHost)
    } else if parsed_u16(or_default(opt_view(env.port), "587"@)) is None {
        Some(SmtpEnvErrorKind::InvalidPort)
    } else if env.from_address is None {
        Some(SmtpEnvErrorKind::MissingFromAddress)
    } else if encryption_named(lowercase(or_default(opt_view(env.encryption), "starttls"@))) is None {
        Some(SmtpEnvErrorKind::UnknownEncryption)
    } else if parsed_u64(or_default(opt_view(env.timeout_secs), "30"@)) is None {
        Some(SmtpEnvErrorKind::InvalidTimeout)
    } else if (filled(opt_view(env.username)) is Some) != (filled(opt_view(env.password)) is Some) {
        Some(SmtpEnvErrorKind::CredentialsIncomplete)
    } else {
        None
    }
}

#[derive(Clone, Copy, Debug, PartialEq, Eq, Structural)]
pub enum SmtpEnvErrorKind {
    MissingHost,
    InvalidPort,
    MissingFromAddress,
    UnknownEncryption,
    InvalidTimeout,
    CredentialsIncomplete,
}

/// The refusal, with what it carries, fits the kind of check.
pub open spec fn refusal_matches(e: SmtpEnvError, kind: SmtpEnvErrorKind, env: SmtpEnv) -> bool {
    match kind {
        SmtpEnvErrorKind::MissingHost => e matches SmtpEnvError::MissingVariable { key } && key@
            == "SMTP_HOST"@,
        SmtpEnvErrorKind::InvalidPort => e is InvalidPort,
        SmtpEnvErrorKind::MissingFromAddress => e matches SmtpEnvError::MissingVariable { key }
            && key@ == "SMTP_FROM_ADDRESS"@,
        SmtpEnvErrorKind::UnknownEncryption => e matches SmtpEnvError::UnknownEncryption { value }
            && value@ == lowercase(or_default(opt_view(env.encryption), "starttls"@)),
        SmtpEnvErrorKind::InvalidTimeout => e is InvalidTimeout,
        SmtpEnvErrorKind::CredentialsIncomplete => e is CredentialsIncomplete,
    }
}

/// The settings that accepted values give.
pub open spec fn config_from(c: SmtpConfig, env: SmtpEnv) -> bool {
    &&& c.host@ == env.host->0@
    &&& parsed_u16(or_default(opt_view(env.port), "587"@)) == Some(c.port as int)
    &&& opt_view(c.username) == filled(opt_view(env.username))
    &&& opt_view(c.password) == filled(opt_view(env.password))
    &&& c.from_address@ == env.from_address->0@
    &&& opt_view(c.from_name) == filled(opt_view(env.from_name))
    &&& encryption_named(lowercase(or_default(opt_view(env.encryption), "starttls"@))) == Some(
        c.encryption,
    )
    &&& parsed_u64(or_default(opt_view(env.timeout_secs), "30"@)) == Some(c.timeout_secs as int)
}

fn non_empty(v: Option<String>) -> (r: Option<String>)
    ensures
        opt_view(r) == filled(opt_view(v)),
{
    match v {
        Some(s) => {
            if str_is_blank(s.as_str()) {
                None
            } else {
                Some(s)
            }
        },
        None => None,
    }
}

fn or_default_string(v: Option<String>, d: &str) -> (r: String)
    ensures
        r@ == or_default(opt_view(v), d@),
{
    match v {
        Some(s) => s,
        None => d.to_owned(),
    }
}

proof fn lemma_default_numbers()
    ensures
        parsed_u16("587"@) == Some(587int),
        parsed_u64("30"@) == Some(30int),
{
    reveal_strlit("587");
    reveal_strlit("30");
    reveal_with_fuel(digits_value, 4);
    assert("587"@.drop_last().drop_last() =~= seq!['5']);
    assert(seq!['5'].drop_last() =~= Seq::<char>::empty());
    assert("30"@.drop_last() =~= seq!['3']);
    assert(seq!['3'].drop_last() =~= Seq::<char>::empty());
}

/// The environment sets the host and the sender and leaves port,
/// encryption and timeout to their defaults; user name and password are
/// either both set or both missing.
pub open spec fn defaults_env(env: SmtpEnv) -> bool {
    &&& env.host is Some
    &&& env.from_address is Some
    &&& env.port is None
    &&& env.encryption is None
    &&& env.timeout_secs is None
    &&& (filled(opt_view(env.username)) is Some) == (filled(opt_view(env.password)) is Some)
}

/// User name and password come as a pair: the settings are accepted only
/// when both are set or both are missing (a blank value counts as
/// missing), and when exactly one is set and every earlier check passes,
/// the refusal is `CredentialsIncomplete`.
pub proof fn lemma_credentials_come_in_pairs(env: SmtpEnv)
    ensures
        env_refusal(env) is None ==> (filled(opt_view(env.username)) is Some) == (filled(
            opt_view(env.password),
        ) is Some),
        ({
            &&& env.host is Some
            &&& parsed_u16(or_default(opt_view(env.port), "587"@)) is Some
            &&& env.from_address is Some
            &&& encryption_named(lowercase(or_default(opt_view(env.encryption), "starttls"@))) is Some
            &&& parsed_u64(or_default(opt_view(env.timeout_secs), "30"@)) is Some
            &&& (filled(opt_view(env.username)) is Some) != (filled(opt_view(env.password)) is Some)
        }) ==> env_refusal(env) == Some(SmtpEnvErrorKind::CredentialsIncomplete),
{
}

impl SmtpConfig {
    /// Builds the settings from the raw environment values, or reports the
    /// first check that refuses them. Such an environment with only the
    /// host and the sender set is accepted, with port 587, STARTTLS and a
    /// timeout of 30 seconds.
    pub fn from_env(env: SmtpEnv) -> (r: Result<SmtpConfig, SmtpEnvError>)
        ensures
            match r {
                Ok(c) => env_refusal(env) is None && config_from(c, env),
                Err(e) => env_refusal(env) matches Some(kind) && refusal_matches(e, kind, env),
            },
            defaults_env(env) ==> (r matches Ok(c) && c.port == 587 && c.encryption
                == Encryption::StartTls && c.timeout_secs == 30),
            env.encryption matches Some(e) ==> (is_ascii_chars(e@) ==> lowercase(e@)
                == e@.map_values(|c: char| ascii_lower(c))),
            r matches Ok(c) ==> (c.username is Some <==> c.password is Some),
    {
        proof {
            lemma_default_numbers();
        }
        let ghost g = env;
        let SmtpEnv {
            host,
            port,
            username,
            password,
            from_address,
            from_name,
            encryption,
            timeout_secs,
        } = env;
        // The encryption value is lowercased up front; the checks below still
        // run in their order.
        let raw_encryption = or_default_string(encryption, "starttls");
        let lower = to_lowercase(raw_encryption.as_str());
        proof {
            if g.encryption is None {
                reveal_strlit("starttls");
                assert(lower@ =~= "starttls"@);
            }
        }
        let host = match host {
            Some(h) => h,
            None => {
                return Err(SmtpEnvError::MissingVariable { key: "SMTP_HOST".to_owned() });
            },
        };
        let port_text = or_default_string(port, "587");
        let port = match parse_u16(port_text.as_str()) {
            Some(p) => p,
            None => {
                return Err(SmtpEnvError::InvalidPort);
            },
        };
        let username = non_empty(username);
        let password = non_empty(password);
        let from_address = match from_address {
            Some(a) => a,
            None => {
                return Err(SmtpEnvError::MissingVariable { key: "SMTP_FROM_ADDRESS".to_owned() });
            },
        };
        let from_name = non_empty(from_name);
        let encryption = if str_eq(lower.as_str(), "starttls") {
            Encryption::StartTls
        } else if str_eq(lower.as_str(), "tls") {
            Encryption::Tls
        } else if str_eq(lower.as_str(), "none") {
            Encryption::Plain
        } else {
            return Err(SmtpEnvError::UnknownEncryption { value: lower });
        };
        let timeout_text = or_default_string(timeout_secs, "30");
        let timeout_secs = match parse_u64(timeout_text.as_str()) {
            Some(t) => t,
            None => {
                return Err(SmtpEnvError::InvalidTimeout);
            },
        };
        if username.is_some() != password.is_some() {
            return Err(SmtpEnvError::CredentialsIncomplete);
        }
        Ok(
            SmtpConfig {
                host,
                port,
                username,
                password,
                from_address,
                from_name,
                encryption,
                timeout_secs,
            },
        )
    }

    /// User name and password for SMTP AUTH, when both are set.
    pub fn credentials(&self) -> (r: Option<(String, String)>)
        ensures
            match r {
                Some((u, p)) => self.username matches Some(su) && self.password matches Some(sp)
                    && u@ == su@ && p@ == sp@,
                None => self.username is None || self.password is None,
            },
    {
        match (&self.username, &self.password) {
            (Some(u), Some(p)) => Some((u.clone(), p.clone())),
            _ => None,
        }
    }
}

/// The text that a refusal is reported with.
pub open spec fn smtp_env_error_text(e: SmtpEnvError) -> Seq<char> {
    match e {
        SmtpEnvError::MissingVariable { key } => "Pflicht-ENV-Variable "@ + key@
            + " ist nicht gesetzt"@,
        SmtpEnvError::InvalidPort => "SMTP_PORT ist keine gültige Portnummer"@,
        SmtpEnvError::UnknownEncryption { value } => "SMTP_ENCRYPTION unbekannt: '"@ + value@
            + "' (erlaubt: starttls|tls|none)"@,
        SmtpEnvError::InvalidTimeout => "SMTP_TIMEOUT_SECS ist keine gültige Zahl"@,
        SmtpEnvError::CredentialsIncomplete => "SMTP_USERNAME und SMTP_PASSWORD müssen entweder beide gesetzt sein oder beide fehlen"@,
    }
}

impl SmtpEnvError {
    pub fn message(&self) -> (r: String)
        ensures
            r@ == smtp_env_error_text(*self),
    {
        let mut r = String::new();
        match self {
            SmtpEnvError::MissingVariable { key } => {
                push_str(&mut r, "Pflicht-ENV-Variable ");
                push_str(&mut r, key.as_str());
                push_str(&mut r, " ist nicht gesetzt");
            },
            SmtpEnvError::InvalidPort => {
                push_str(&mut r, "SMTP_PORT ist keine gültige Portnummer");
            },
            SmtpEnvError::UnknownEncryption { value } => {
                push_str(&mut r, "SMTP_ENCRYPTION unbekannt: '");
                push_str(&mut r, value.as_str());
                push_str(&mut r, "' (erlaubt: starttls|tls|none)");
            },
            SmtpEnvError::InvalidTimeout => {
                push_str(&mut r, "SMTP_TIMEOUT_SECS ist keine gültige Zahl");
            },
            SmtpEnvError::CredentialsIncomplete => {
                push_str(
                    &mut r,
                    "SMTP_USERNAME und SMTP_PASSWORD müssen entweder beide gesetzt sein oder beide fehlen",
                );
            },
        }
        r
    }
}

/// Whether lettre's `Address::from_str` accepts `s` as `user@domain`.
pub uninterp spec fn address_accepted(s: Seq<char>) -> bool;

/// What lettre's `Mailbox::from_str` makes of `s` (e.g. `Name <user@domain>`
/// or a bare address): the display name, if any, and the address text; or
/// nothing when it refuses the text.
pub uninterp spec fn mailbox_parse(s: Seq<char>) -> Option<(Option<Seq<char>>, Seq<char>)>;

/// Calls `lettre::Address::from_str` and gives back the parsed address as
/// text. The contract says that it succeeds exactly when `address_accepted`
/// holds of the text, and that the address is the text itself (`from_str`
/// stores its input unchanged); which texts the RFC 5322 rules accept is
/// not restated.
#[verifier::external_body]
fn parse_address(s: &str) -> (r: Option<String>)
    ensures
        r is Some <==> address_accepted(s@),
        r matches Some(t) ==> t@ == s@,
{
    match s.parse::<lettre::Address>() {
        Ok(a) => Some(a.to_string()),
        Err(_) => None,
    }
}

/// Calls `lettre::message::Mailbox::from_str` and gives back the display
/// name and the address of the parsed mailbox as text. The contract ties
/// the outcome to the name `mailbox_parse` of the input; the mailbox
/// grammar is not restated.
#[verifier::external_body]
fn parse_mailbox(s: &str) -> (r: Option<(Option<String>, String)>)
    ensures
        match r {
            None => mailbox_parse(s@) is None,
            Some((n, a)) => mailbox_parse(s@) == Some((opt_view(n), a@)),
        },
{
    match s.parse::<lettre::message::Mailbox>() {
        Ok(m) => Some((m.name, m.email.to_string())),
        Err(_) => None,
    }
}

/// Why the mailboxes of a message could not be built.
#[derive(Clone, Copy, Debug, PartialEq, Eq, Structural)]
pub enum MailboxError {
    /// The configured sender is no valid address or mailbox.
    InvalidSender,
    /// The contact's address is invalid. The address itself is not carried:
    /// the report may reach the agent, which never sees an address.
    InvalidRecipient,
}

/// The text that a refused mailbox is reported with when sending over the
/// e-mail channel (`build_mailboxes`).
pub open spec fn mailbox_error_text(e: MailboxError) -> Seq<char> {
    match e {
        MailboxError::InvalidSender => "SMTP_FROM_ADDRESS ist keine gültige Absenderadresse"@,
        MailboxError::InvalidRecipient => "Kontakt-E-Mail ist ungültig"@,
    }
}

/// The text that a refused mailbox is reported with when the mailboxes were
/// parsed from their texts (`parse_mailboxes`).
pub open spec fn header_mailbox_error_text(e: MailboxError) -> Seq<char> {
    match e {
        MailboxError::InvalidSender => "SMTP_FROM_NAME/SMTP_FROM_ADDRESS ergeben keine gültige Absenderadresse"@,
        MailboxError::InvalidRecipient => "Kontakt-E-Mail ist ungültig"@,
    }
}

impl MailboxError {
    pub fn message(&self) -> (r: String)
        ensures
            r@ == mailbox_error_text(*self),
    {
        let mut r = String::new();
        match self {
            MailboxError::InvalidSender => {
                push_str(&mut r, "SMTP_FROM_ADDRESS ist keine gültige Absenderadresse");
            },
            MailboxError::InvalidRecipient => {
                push_str(&mut r, "Kontakt-E-Mail ist ungültig");
            },
        }
        r
    }

    pub fn header_message(&self) -> (r: String)
        ensures
            r@ == header_mailbox_error_text(*self),
    {
        let mut r = String::new();
        match self {
            MailboxError::InvalidSender => {
                push_str(&mut r, "SMTP_FROM_NAME/SMTP_FROM_ADDRESS ergeben keine gültige Absenderadresse");
            },
            MailboxError::InvalidRecipient => {
                push_str(&mut r, "Kontakt-E-Mail ist ungültig");
            },
        }
        r
    }
}

/// Sender and recipient of a message: each an optional display name and an
/// address.
#[derive(Debug)]
pub struct Mailboxes {
    pub from_name: Option<String>,
    pub from_address: String,
    pub to_name: Option<String>,
    pub to_address: String,
}

fn copy_name(n: &Option<String>) -> (r: Option<String>)
    ensures
        opt_view(r) == opt_view(*n),
{
    match n {
        Some(s) => Some(s.clone()),
        None => None,
    }
}

/// The mailboxes of a message to a contact: the sender is the configured
/// address with the configured display name, if any; the recipient is the
/// contact's address with the contact's name. Both addresses must be
/// accepted by lettre; the sender is checked first. The mailboxes are built
/// from their parts, so an `@` in a display name cannot confuse a parser.
pub fn build_mailboxes(cfg: &SmtpConfig, contact_name: &str, address: &str) -> (r: Result<
    Mailboxes,
    MailboxError,
>)
    ensures
        match r {
            Ok(m) => {
                &&& address_accepted(cfg.from_address@)
                &&& address_accepted(address@)
                &&& opt_view(m.from_name) == opt_view(cfg.from_name)
                &&& m.from_address@ == cfg.from_address@
                &&& opt_view(m.to_name) == Some(contact_name@)
                &&& m.to_address@ == address@
            },
            Err(MailboxError::InvalidSender) => !address_accepted(cfg.from_address@),
            Err(MailboxError::InvalidRecipient) => address_accepted(cfg.from_address@)
                && !address_accepted(address@),
        },
{
    let from_address = match parse_address(cfg.from_address.as_str()) {
        Some(a) => a,
        None => {
            return Err(MailboxError::InvalidSender);
        },
    };
    let to_address = match parse_address(address) {
        Some(a) => a,
        None => {
            return Err(MailboxError::InvalidRecipient);
        },
    };
    Ok(
        Mailboxes {
            from_name: copy_name(&cfg.from_name),
            from_address,
            to_name: Some(contact_name.to_owned()),
            to_address,
        },
    )
}

/// `<display> <<address>>`
pub open spec fn mailbox_text(display: Seq<char>, address: Seq<char>) -> Seq<char> {
    display + " <"@ + address + ">"@
}

/// The sender's mailbox text: `Name <address>` with a configured display
/// name, otherwise the bare address.
pub open spec fn sender_text(cfg: SmtpConfig) -> Seq<char> {
    match cfg.from_name {
        Some(n) => mailbox_text(n@, cfg.from_address@),
        None => cfg.from_address@,
    }
}

fn format_mailbox(display: &str, address: &str) -> (r: String)
    ensures
        r@ == mailbox_text(display@, address@),
{
    let mut r = String::new();
    push_str(&mut r, display);
    push_str(&mut r, " <");
    push_str(&mut r, address);
    push_str(&mut r, ">");
    r
}

/// The mailboxes of a message as `send_mail` builds them: each written as
/// text and parsed, the sender as `sender_text` (without a display name
/// just the address), the recipient as `<to_name> <<to_email>>`. The
/// sender is checked first.
pub fn parse_mailboxes(cfg: &SmtpConfig, to_name: &str, to_email: &str) -> (r: Result<
    Mailboxes,
    MailboxError,
>)
    ensures
        ({
            let from_text = sender_text(*cfg);
            let to_text = mailbox_text(to_name@, to_email@);
            match r {
                Ok(m) => mailbox_parse(from_text) == Some((opt_view(m.from_name), m.from_address@))
                    && mailbox_parse(to_text) == Some((opt_view(m.to_name), m.to_address@)),
                Err(MailboxError::InvalidSender) => mailbox_parse(from_text) is None,
                Err(MailboxError::InvalidRecipient) => mailbox_parse(from_text) is Some
                    && mailbox_parse(to_text) is None,
            }
        }),
{
    let from_text = match &cfg.from_name {
        Some(n) => format_mailbox(n.as_str(), cfg.from_address.as_str()),
        None => cfg.from_address.clone(),
    };
    let (from_name, from_address) = match parse_mailbox(from_text.as_str()) {
        Some(m) => m,
        None => {
            return Err(MailboxError::InvalidSender);
        },
    };
    let to_text = format_mailbox(to_name, to_email);
    let (to_name, to_address) = match parse_mailbox(to_text.as_str()) {
        Some(m) => m,
        None => {
            return Err(MailboxError::InvalidRecipient);
        },
    };
    Ok(Mailboxes { from_name, from_address, to_name, to_address })
}

/// A message ready for the transport, as plain values.
#[derive(Debug)]
pub struct OutgoingMail {
    pub mailboxes: Mailboxes,
    pub subject: String,
    pub body: String,
    /// The `Content-Type` header.
    pub content_type: String,
}

/// Messages are plain UTF-8 text.
pub open spec fn plain_text_type() -> Seq<char> {
    "text/plain; charset=utf-8"@
}

/// The message to send: the mailboxes, the subject and the body as given,
/// as plain UTF-8 text.
pub fn compose_mail(mailboxes: Mailboxes, subject: &str, body: &str) -> (m: OutgoingMail)
    ensures
        m.mailboxes == mailboxes,
        m.subject@ == subject@,
        m.body@ == body@,
        m.content_type@ == plain_text_type(),
{
    OutgoingMail {
        mailboxes,
        subject: subject.to_owned(),
        body: body.to_owned(),
        content_type: "text/plain; charset=utf-8".to_owned(),
    }
}

} // verus!
