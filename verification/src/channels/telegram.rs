//! The Telegram channel: messages go to a numeric chat id through the Bot
//! API; the text is built by `crate::telegram`.
use vstd::prelude::*;

use super::{ChannelDef, ChannelKind, ChannelValueError, ValueProblem};
use crate::numbers::{parse_i64, parsed_i64};
use crate::telegram::TelegramConfig;

verus! {

pub open spec fn is_telegram_def(d: ChannelDef) -> bool {
    &&& d.config_key@ == "telegram_chat_id"@
    &&& d.slug@ == "telegram"@
    &&& d.display_name@ == "Telegram"@
    &&& d.kind == ChannelKind::Telegram
}

pub fn channel_def() -> (d: ChannelDef)
    ensures
        is_telegram_def(d),
{
    ChannelDef {
        config_key: "telegram_chat_id",
        slug: "telegram",
        display_name: "Telegram",
        kind: ChannelKind::Telegram,
    }
}

/// Chat ids are numbers (groups and supergroups have negative ones), not
/// the @username: the value must parse as an `i64`.
pub open spec fn chat_id_problem(chat_id: Seq<char>) -> Option<ValueProblem> {
    if parsed_i64(chat_id) is Some {
        None
    } else {
        Some(ValueProblem::NotAChatId)
    }
}

pub fn validate_chat_id(chat_id: &str) -> (r: Result<(), ChannelValueError>)
    ensures
        super::check_matches(r, chat_id_problem(chat_id@), chat_id@),
{
    if parse_i64(chat_id).is_none() {
        return Err(ChannelValueError { problem: ValueProblem::NotAChatId, value: chat_id.to_owned() });
    }
    Ok(())
}

/// A required environment variable that is not set.
#[derive(Debug)]
pub struct MissingEnv {
    pub key: String,
}

/// Builds the settings from the raw value of `TELEGRAM_BOT_TOKEN`, which
/// must be set.
pub fn from_env(raw_token: Option<String>) -> (r: Result<TelegramConfig, MissingEnv>)
    ensures
        raw_token matches Some(t) ==> (r matches Ok(c) && c.bot_token@ == t@),
        raw_token is None ==> (r matches Err(e) && e.key@ == "TELEGRAM_BOT_TOKEN"@),
{
    match raw_token {
        Some(t) => Ok(TelegramConfig { bot_token: t }),
        None => Err(MissingEnv { key: "TELEGRAM_BOT_TOKEN".to_owned() }),
    }
}

} // verus!
