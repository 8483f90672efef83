//! Channel plugins: the static description of each outbound channel, the
//! plausibility check of the addresses that the contact book gives for it,
//! and the registry of the channels that the server offers.
use vstd::prelude::*;

use crate::text::push_str;

pub mod discord;
pub mod email;
pub mod ntfy;
pub mod slack;
pub mod telegram;

verus! {

/// Which channel a definition stands for; selects its address check.
#[derive(Clone, Copy, Debug, PartialEq, Eq, Structural)]
pub enum ChannelKind {
    Email,
    Ntfy,
    Telegram,
    Discord,
    Slack,
}

/// Static metadata of a channel, independent of whether the contact book
/// uses it.
#[derive(Clone, Copy, Debug)]
pub struct ChannelDef {
    /// The field name in the contact book, e.g. "email" or "telegram_chat_id".
    pub config_key: &'static str,
    /// The segment in tool names, e.g. "email" in "send_to_<name>_via_email".
    pub slug: &'static str,
    /// The human-readable name for tool titles, e.g. "E-Mail".
    pub display_name: &'static str,
    /// Selects the address check of the channel.
    pub kind: ChannelKind,
}

/// Why an address from the contact book was refused.
#[derive(Clone, Copy, Debug, PartialEq, Eq, Structural)]
pub enum ValueProblem {
    NotAnEmailAddress,
    NotANtfyTopic,
    NotAChatId,
    NotAUrl,
    NotADiscordWebhook,
    NotASlackWebhook,
}

/// A refused address, with the value that was refused.
#[derive(Debug)]
pub struct ChannelValueError {
    pub problem: ValueProblem,
    pub value: String,
}

/// The problem that the check of `kind` finds with `value`, if any.
pub open spec fn value_problem(kind: ChannelKind, value: Seq<char>) -> Option<ValueProblem> {
    match kind {
        ChannelKind::Email => email::address_problem(value),
        ChannelKind::Ntfy => ntfy::topic_problem(value),
        ChannelKind::Telegram => telegram::chat_id_problem(value),
        ChannelKind::Discord => discord::webhook_problem(value),
        ChannelKind::Slack => slack::webhook_problem(value),
    }
}

/// The outcome of a check, stated over the spec of the channel's rule.
pub open spec fn check_matches(
    r: Result<(), ChannelValueError>,
    problem: Option<ValueProblem>,
    value: Seq<char>,
) -> bool {
    match r {
        Ok(()) => problem is None,
        Err(e) => problem == Some(e.problem) && e.value@ == value,
    }
}

/// The text that a refused address is reported with.
pub open spec fn value_error_text(problem: ValueProblem, value: Seq<char>) -> Seq<char> {
    match problem {
        ValueProblem::NotAnEmailAddress => "keine gültige E-Mail-Adresse ('"@ + value + "')"@,
        ValueProblem::NotANtfyTopic => "kein gültiges ntfy-Topic ('"@ + value
            + "') - erlaubt sind nur Buchstaben, Zahlen, '_' und '-'"@,
        ValueProblem::NotAChatId => "keine gültige telegram_chat_id ('"@ + value
            + "') - muss eine Zahl sein (Gruppen/Supergruppen haben negative IDs)"@,
        ValueProblem::NotAUrl => "keine gültige URL: '"@ + value + "'"@,
        ValueProblem::NotADiscordWebhook => "keine gültige Discord-Webhook-URL ('"@ + value
            + "') - erwartet wird https://discord.com/api/webhooks/<id>/<token>"@,
        ValueProblem::NotASlackWebhook => "keine gültige Slack-Webhook-URL ('"@ + value
            + "') - erwartet wird https://hooks.slack.com/services/<...>"@,
    }
}

impl ChannelValueError {
    /// The human-readable report of the refusal.
    pub fn message(&self) -> (r: String)
        ensures
            r@ == value_error_text(self.problem, self.value@),
    {
        let mut r = String::new();
        let v = self.value.as_str();
        match self.problem {
            ValueProblem::NotAnEmailAddress => {
                push_str(&mut r, "keine gültige E-Mail-Adresse ('");
                push_str(&mut r, v);
                push_str(&mut r, "')");
            },
            ValueProblem::NotANtfyTopic => {
                push_str(&mut r, "kein gültiges ntfy-Topic ('");
                push_str(&mut r, v);
                push_str(&mut r, "') - erlaubt sind nur Buchstaben, Zahlen, '_' und '-'");
            },
            ValueProblem::NotAChatId => {
                push_str(&mut r, "keine gültige telegram_chat_id ('");
                push_str(&mut r, v);
                push_str(
                    &mut r,
                    "') - muss eine Zahl sein (Gruppen/Supergruppen haben negative IDs)",
                );
            },
            ValueProblem::NotAUrl => {
                push_str(&mut r, "keine gültige URL: '");
                push_str(&mut r, v);
                push_str(&mut r, "'");
            },
            ValueProblem::NotADiscordWebhook => {
                push_str(&mut r, "keine gültige Discord-Webhook-URL ('");
                push_str(&mut r, v);
                push_str(
                    &mut r,
                    "') - erwartet wird https://discord.com/api/webhooks/<id>/<token>",
                );
            },
            ValueProblem::NotASlackWebhook => {
                push_str(&mut r, "keine gültige Slack-Webhook-URL ('");
                push_str(&mut r, v);
                push_str(&mut r, "') - erwartet wird https://hooks.slack.com/services/<...>");
            },
        }
        r
    }
}

impl ChannelDef {
    /// Checks an address from the contact book for plausibility (format
    /// only, no network access) with the rule of this channel.
    pub fn validate(&self, value: &str) -> (r: Result<(), ChannelValueError>)
        ensures
            check_matches(r, value_problem(self.kind, value@), value@),
    {
        match self.kind {
            ChannelKind::Email => email::validate_address(value),
            ChannelKind::Ntfy => ntfy::validate_topic(value),
            ChannelKind::Telegram => telegram::validate_chat_id(value),
            ChannelKind::Discord => discord::validate_webhook_url(value),
            ChannelKind::Slack => slack::validate_webhook_url(value),
        }
    }
}

/// A definition list that yields unambiguous tool names: the slugs are
/// pairwise different and none holds `_`.
pub open spec fn defs_well_formed(defs: Seq<ChannelDef>) -> bool {
    &&& forall|i: int, j: int|
        0 <= i < defs.len() && 0 <= j < defs.len() && i != j ==> #[trigger] defs[i].slug@
            != #[trigger] defs[j].slug@
    &&& forall|i: int, k: int|
        0 <= i < defs.len() && 0 <= k < defs[i].slug@.len() ==> #[trigger] defs[i].slug@[k]
            != '_'
}

/// The definitions that `registry` returns.
pub open spec fn registry_spec() -> Seq<ChannelDef> {
    seq![
        ChannelDef {
            config_key: "email",
            slug: "email",
            display_name: "E-Mail",
            kind: ChannelKind::Email,
        },
    ]
}

/// The channels that the server offers: e-mail. A new channel is a file of
/// its own plus one entry here.
pub fn registry() -> (r: Vec<ChannelDef>)
    ensures
        r@ == registry_spec(),
        email::is_email_def(r@[0]),
        defs_well_formed(r@),
{
    let mut r = Vec::new();
    r.push(email::channel_def());
    proof {
        reveal_strlit("email");
    }
    r
}

/// The registry yields unambiguous tool names.
pub proof fn lemma_registry_well_formed()
    ensures
        defs_well_formed(registry_spec()),
{
    reveal_strlit("email");
}

/// What `url::Url::parse` makes of a string: its scheme, its host (if it
/// has one) and its path, or nothing when the string is no URL.
pub uninterp spec fn url_parse(input: Seq<char>) -> Option<(Seq<char>, Option<Seq<char>>, Seq<char>)>;

/// The parts of a parsed URL that the webhook checks read.
pub struct UrlParts {
    pub scheme: String,
    pub host: Option<String>,
    pub path: String,
}

pub open spec fn opt_view(o: Option<String>) -> Option<Seq<char>> {
    match o {
        Some(s) => Some(s@),
        None => None,
    }
}

/// Calls `reqwest::Url::parse` (the `url` crate's `Url::parse`) and reads
/// `scheme()`, `host_str()` and `path()` of the result. The contract only
/// ties the outcome to the name `url_parse` of the input; what the URL
/// standard makes of a string is not restated here.
#[verifier::external_body]
pub(crate) fn parse_url(input: &str) -> (r: Option<UrlParts>)
    ensures
        match r {
            None => url_parse(input@) is None,
            Some(p) => url_parse(input@) == Some((p.scheme@, opt_view(p.host), p.path@)),
        },
{
    match reqwest::Url::parse(input) {
        Ok(u) => {
            let host = match u.host_str() {
                Some(h) => Some(h.to_string()),
                None => None,
            };
            Some(UrlParts { scheme: u.scheme().to_string(), host, path: u.path().to_string() })
        },
        Err(_) => None,
    }
}

/// `<label>-Versand fehlgeschlagen: HTTP <status> - <text>`
pub open spec fn delivery_failure_text(label: Seq<char>, status: Seq<char>, text: Seq<char>) -> Seq<
    char,
> {
    label + "-Versand fehlgeschlagen: HTTP "@ + status + " - "@ + text
}

/// Whether an HTTP status code reports success: the 2xx range, as
/// `StatusCode::is_success` tests it.
pub open spec fn is_success_status(code: u16) -> bool {
    200 <= code && code < 300
}

pub fn status_is_success(code: u16) -> (r: bool)
    ensures
        r == is_success_status(code),
{
    200 <= code && code < 300
}

/// Decides the outcome of a webhook or publish request from its HTTP
/// status code: success for a 2xx status, otherwise the report with the
/// status as displayed (e.g. `404 Not Found`) and the response text.
pub fn delivery_outcome(label: &str, status_code: u16, status: &str, text: &str) -> (r: Result<
    (),
    String,
>)
    ensures
        r is Ok <==> is_success_status(status_code),
        r matches Err(e) ==> e@ == delivery_failure_text(label@, status@, text@),
{
    if status_is_success(status_code) {
        Ok(())
    } else {
        let mut e = String::new();
        push_str(&mut e, label);
        push_str(&mut e, "-Versand fehlgeschlagen: HTTP ");
        push_str(&mut e, status);
        push_str(&mut e, " - ");
        push_str(&mut e, text);
        Err(e)
    }
}

/// `<open><subject><open>\n\n<body>`: the subject in bold markup, an empty
/// line, the body.
pub open spec fn bold_subject_text(mark: Seq<char>, subject: Seq<char>, body: Seq<char>) -> Seq<
    char,
> {
    mark + subject + mark + seq!['\n', '\n'] + body
}

pub(crate) fn bold_subject(mark: &str, subject: &str, body: &str) -> (r: String)
    ensures
        r@ == bold_subject_text(mark@, subject@, body@),
{
    let mut r = String::new();
    push_str(&mut r, mark);
    push_str(&mut r, subject);
    push_str(&mut r, mark);
    r.push('\n');
    r.push('\n');
    push_str(&mut r, body);
    assert(r@ =~= bold_subject_text(mark@, subject@, body@));
    r
}

} // verus!
