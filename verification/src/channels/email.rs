//! The e-mail channel: addresses are checked for an `@`; sending goes over
//! SMTP with the settings of `crate::smtp`.
use vstd::prelude::*;

use super::{ChannelDef, ChannelKind, ChannelValueError, ValueProblem};
use crate::smtp::{config_from, env_refusal, refusal_matches, SmtpConfig, SmtpEnv, SmtpEnvError};
use crate::text::contains_char;

verus! {

/// The definition that `channel_def` returns.
pub open spec fn is_email_def(d: ChannelDef) -> bool {
    &&& d.config_key@ == "email"@
    &&& d.slug@ == "email"@
    &&& d.display_name@ == "E-Mail"@
    &&& d.kind == ChannelKind::Email
}

pub fn channel_def() -> (d: ChannelDef)
    ensures
        is_email_def(d),
        d == (ChannelDef {
            config_key: "email",
            slug: "email",
            display_name: "E-Mail",
            kind: ChannelKind::Email,
        }),
{
    ChannelDef { config_key: "email", slug: "email", display_name: "E-Mail", kind: ChannelKind::Email }
}

/// An e-mail address must at least hold an `@`.
pub open spec fn address_problem(address: Seq<char>) -> Option<ValueProblem> {
    if address.contains('@') {
        None
    } else {
        Some(ValueProblem::NotAnEmailAddress)
    }
}

pub fn validate_address(address: &str) -> (r: Result<(), ChannelValueError>)
    ensures
        super::check_matches(r, address_problem(address@), address@),
        r is Ok <==> address@.contains('@'),
{
    if !contains_char(address, '@') {
        return Err(
            ChannelValueError { problem: ValueProblem::NotAnEmailAddress, value: address.to_owned() },
        );
    }
    Ok(())
}

/// The SMTP settings of the channel, from the raw environment values.
pub fn from_env(env: SmtpEnv) -> (r: Result<SmtpConfig, SmtpEnvError>)
    ensures
        match r {
            Ok(c) => env_refusal(env) is None && config_from(c, env),
            Err(e) => env_refusal(env) matches Some(kind) && refusal_matches(e, kind, env),
        },
{
    SmtpConfig::from_env(env)
}

/// The e-mail check is only the `@`: every address that holds one is
/// accepted, whatever else it holds (`+`, dots, subdomains), and exactly the
/// addresses without one are refused, as `NotAnEmailAddress`.
pub proof fn lemma_email_check_is_the_at_sign(address: Seq<char>)
    ensures
        address.contains('@') ==> super::value_problem(ChannelKind::Email, address) is None,
        !address.contains('@') ==> super::value_problem(ChannelKind::Email, address) == Some(
            ValueProblem::NotAnEmailAddress,
        ),
{
}

} // verus!
