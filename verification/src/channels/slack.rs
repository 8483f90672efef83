//! The Slack channel: every contact has an incoming webhook URL of its own,
//! which is both the address and the secret.
use vstd::prelude::*;

use super::{bold_subject, bold_subject_text, parse_url, url_parse, ChannelDef, ChannelKind, ChannelValueError, ValueProblem};
use super::discord::has_prefix;
use crate::text::{starts_with, str_eq};

verus! {

pub open spec fn is_slack_def(d: ChannelDef) -> bool {
    &&& d.config_key@ == "slack_webhook_url"@
    &&& d.slug@ == "slack"@
    &&& d.display_name@ == "Slack"@
    &&& d.kind == ChannelKind::Slack
}

pub fn channel_def() -> (d: ChannelDef)
    ensures
        is_slack_def(d),
{
    ChannelDef {
        config_key: "slack_webhook_url",
        slug: "slack",
        display_name: "Slack",
        kind: ChannelKind::Slack,
    }
}

/// The check is formal only: an https URL on hooks.slack.com whose path
/// starts with "/services/".
pub open spec fn parts_problem(scheme: Seq<char>, host: Option<Seq<char>>, path: Seq<char>) -> Option<
    ValueProblem,
> {
    if scheme == "https"@ && host == Some("hooks.slack.com"@) && has_prefix(path, "/services/"@) {
        None
    } else {
        Some(ValueProblem::NotASlackWebhook)
    }
}

/// The rule applied to what `url::Url::parse` makes of the text.
pub open spec fn webhook_problem(url: Seq<char>) -> Option<ValueProblem> {
    match url_parse(url) {
        None => Some(ValueProblem::NotAUrl),
        Some((scheme, host, path)) => parts_problem(scheme, host, path),
    }
}

/// The webhook rule on the scheme, host and path of a parsed URL.
pub fn webhook_parts_problem(scheme: &str, host: Option<&str>, path: &str) -> (r: Option<
    ValueProblem,
>)
    ensures
        r == parts_problem(
            scheme@,
            match host {
                Some(h) => Some(h@),
                None => None,
            },
            path@,
        ),
{
    let host_ok = match host {
        Some(h) => str_eq(h, "hooks.slack.com"),
        None => false,
    };
    if str_eq(scheme, "https") && host_ok && starts_with(path, "/services/") {
        None
    } else {
        Some(ValueProblem::NotASlackWebhook)
    }
}

pub fn validate_webhook_url(url: &str) -> (r: Result<(), ChannelValueError>)
    ensures
        super::check_matches(r, webhook_problem(url@), url@),
{
    let parsed = match parse_url(url) {
        Some(p) => p,
        None => {
            return Err(ChannelValueError { problem: ValueProblem::NotAUrl, value: url.to_owned() });
        },
    };
    let host = match &parsed.host {
        Some(h) => Some(h.as_str()),
        None => None,
    };
    match webhook_parts_problem(parsed.scheme.as_str(), host, parsed.path.as_str()) {
        Some(problem) => Err(ChannelValueError { problem, value: url.to_owned() }),
        None => Ok(()),
    }
}

/// The posted text: the subject in bold, an empty line, the body.
pub fn message_text(subject: &str, body: &str) -> (r: String)
    ensures
        r@ == bold_subject_text("*"@, subject@, body@),
{
    bold_subject("*", subject, body)
}

} // verus!
