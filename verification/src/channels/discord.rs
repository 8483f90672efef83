//! The Discord channel: every contact has an incoming webhook URL of its
//! own, which is both the address and the secret.
use vstd::prelude::*;

use super::{bold_subject, bold_subject_text, parse_url, url_parse, ChannelDef, ChannelKind, ChannelValueError, ValueProblem};
use crate::text::{starts_with, str_eq};

verus! {

pub open spec fn is_discord_def(d: ChannelDef) -> bool {
    &&& d.config_key@ == "discord_webhook_url"@
    &&& d.slug@ == "discord"@
    &&& d.display_name@ == "Discord"@
    &&& d.kind == ChannelKind::Discord
}

pub fn channel_def() -> (d: ChannelDef)
    ensures
        is_discord_def(d),
{
    ChannelDef {
        config_key: "discord_webhook_url",
        slug: "discord",
        display_name: "Discord",
        kind: ChannelKind::Discord,
    }
}

pub open spec fn is_discord_host(host: Option<Seq<char>>) -> bool {
    match host {
        Some(h) => h == "discord.com"@ || h == "discordapp.com"@ || h == "ptb.discord.com"@ || h
            == "canary.discord.com"@,
        None => false,
    }
}

pub open spec fn has_prefix(s: Seq<char>, prefix: Seq<char>) -> bool {
    prefix.len() <= s.len() && s.take(prefix.len() as int) == prefix
}

/// The check is formal only (scheme, host, path), with no network access:
/// an https URL on a Discord host whose path starts with "/api/webhooks/".
pub open spec fn parts_problem(scheme: Seq<char>, host: Option<Seq<char>>, path: Seq<char>) -> Option<
    ValueProblem,
> {
    if scheme == "https"@ && is_discord_host(host) && has_prefix(path, "/api/webhooks/"@) {
        None
    } else {
        Some(ValueProblem::NotADiscordWebhook)
    }
}

/// The rule applied to what `url::Url::parse` makes of the text.
pub open spec fn webhook_problem(url: Seq<char>) -> Option<ValueProblem> {
    match url_parse(url) {
        None => Some(ValueProblem::NotAUrl),
        Some((scheme, host, path)) => parts_problem(scheme, host, path),
    }
}

/// The webhook rule on the scheme, host and path of a parsed URL.
pub fn webhook_parts_problem(scheme: &str, host: Option<&str>, path: &str) -> (r: Option<
    ValueProblem,
>)
    ensures
        r == parts_problem(
            scheme@,
            match host {
                Some(h) => Some(h@),
                None => None,
            },
            path@,
        ),
{
    let host_ok = match host {
        Some(h) => str_eq(h, "discord.com") || str_eq(h, "discordapp.com") || str_eq(
            h,
            "ptb.discord.com",
        ) || str_eq(h, "canary.discord.com"),
        None => false,
    };
    if str_eq(scheme, "https") && host_ok && starts_with(path, "/api/webhooks/") {
        None
    } else {
        Some(ValueProblem::NotADiscordWebhook)
    }
}

pub fn validate_webhook_url(url: &str) -> (r: Result<(), ChannelValueError>)
    ensures
        super::check_matches(r, webhook_problem(url@), url@),
{
    let parsed = match parse_url(url) {
        Some(p) => p,
        None => {
            return Err(ChannelValueError { problem: ValueProblem::NotAUrl, value: url.to_owned() });
        },
    };
    let host = match &parsed.host {
        Some(h) => Some(h.as_str()),
        None => None,
    };
    match webhook_parts_problem(parsed.scheme.as_str(), host, parsed.path.as_str()) {
        Some(problem) => Err(ChannelValueError { problem, value: url.to_owned() }),
        None => Ok(()),
    }
}

/// The posted content: the subject in bold, an empty line, the body.
pub fn message_content(subject: &str, body: &str) -> (r: String)
    ensures
        r@ == bold_subject_text("**"@, subject@, body@),
{
    bold_subject("**", subject, body)
}

} // verus!
