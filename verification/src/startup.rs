//! The decisions of the server start: which channels must be set up, the
//! bearer token, and the defaults of the paths and addresses.
use vstd::prelude::*;

use crate::channels::ChannelDef;
use crate::config::ChannelTool;
use crate::text::str_eq;

verus! {

/// Some tool goes over the channel `slug`.
pub open spec fn some_tool_uses(tools: Seq<ChannelTool>, slug: Seq<char>) -> bool {
    exists|i: int| 0 <= i < tools.len() && (#[trigger] tools[i]).channel_slug@ == slug
}

/// Whether some tool goes over the channel `slug`. Only such channels are
/// loaded from the environment and tested at start, so that a pure Telegram
/// contact book needs no SMTP host and the other way round.
pub fn uses_channel(tools: &Vec<ChannelTool>, slug: &str) -> (r: bool)
    ensures
        r == some_tool_uses(tools@, slug@),
{
    let mut i: usize = 0;
    while i < tools.len()
        invariant
            i <= tools.len(),
            forall|k: int| 0 <= k < i ==> (#[trigger] tools@[k]).channel_slug@ != slug@,
        decreases tools.len() - i,
    {
        if str_eq(tools[i].channel_slug, slug) {
            return true;
        }
        i += 1;
    }
    false
}

/// The definitions of the channels that the tools use, in registry order.
pub fn channels_in_use(defs: &Vec<ChannelDef>, tools: &Vec<ChannelTool>) -> (r: Vec<ChannelDef>)
    ensures
        r@ == defs@.filter(|d: ChannelDef| some_tool_uses(tools@, d.slug@)),
{
    let ghost pred = |d: ChannelDef| some_tool_uses(tools@, d.slug@);
    let mut r: Vec<ChannelDef> = Vec::new();
    let mut i: usize = 0;
    proof {
        reveal(Seq::filter);
        assert(defs@.take(0) =~= Seq::<ChannelDef>::empty());
        assert(defs@.take(0).filter(pred) =~= Seq::<ChannelDef>::empty());
    }
    while i < defs.len()
        invariant
            i <= defs.len(),
            pred == (|d: ChannelDef| some_tool_uses(tools@, d.slug@)),
            r@ == defs@.take(i as int).filter(pred),
        decreases defs.len() - i,
    {
        let d = defs[i];
        let keep = uses_channel(tools, d.slug);
        proof {
            reveal(Seq::filter);
            assert(defs@.take(i + 1).drop_last() =~= defs@.take(i as int));
            assert(defs@.take(i + 1).last() == d);
        }
        let ghost before = r@;
        if keep {
            r.push(d);
        }
        proof {
            reveal(Seq::filter);
            assert(pred(d) == keep);
            let s = defs@.take(i + 1);
            assert(s.filter(pred) == if pred(s.last()) {
                s.drop_last().filter(pred).push(s.last())
            } else {
                s.drop_last().filter(pred)
            });
            assert(r@ =~= s.filter(pred));
        }
        i += 1;
    }
    assert(defs@.take(defs.len() as int) =~= defs@);
    r
}

/// Why the bearer token is refused.
#[derive(Debug)]
pub enum TokenError {
    /// `MCP_BEARER_TOKEN` is not set.
    Missing,
    /// The token holds non-ASCII characters; HTTP header values must be
    /// ASCII, and many clients silently drop a header that is not.
    NotAscii,
}

/// The token from the raw value of `MCP_BEARER_TOKEN`: it must be set and
/// ASCII.
pub fn bearer_token(raw: Option<String>) -> (r: Result<String, TokenError>)
    ensures
        match r {
            Ok(t) => raw matches Some(v) && t@ == v@ && vstd::utf8::is_ascii_chars(t@),
            Err(TokenError::Missing) => raw is None,
            Err(TokenError::NotAscii) => raw matches Some(v) && !vstd::utf8::is_ascii_chars(v@),
        },
{
    match raw {
        None => Err(TokenError::Missing),
        Some(t) => {
            if !t.as_str().is_ascii() {
                Err(TokenError::NotAscii)
            } else {
                Ok(t)
            }
        },
    }
}

impl TokenError {
    pub fn message(&self) -> (r: String)
        ensures
            r@ == match *self {
                TokenError::Missing => "Pflicht-ENV-Variable MCP_BEARER_TOKEN ist nicht gesetzt"@,
                TokenError::NotAscii => "MCP_BEARER_TOKEN enthält nicht-ASCII-Zeichen - HTTP-Header dürfen nur ASCII sein"@,
            },
    {
        match self {
            TokenError::Missing => "Pflicht-ENV-Variable MCP_BEARER_TOKEN ist nicht gesetzt".to_owned(),
            TokenError::NotAscii => "MCP_BEARER_TOKEN enthält nicht-ASCII-Zeichen - HTTP-Header dürfen nur ASCII sein".to_owned(),
        }
    }
}

/// The value of a setting, or its default when it is unset.
pub fn setting_or(raw: Option<String>, default: &str) -> (r: String)
    ensures
        r@ == match raw {
            Some(v) => v@,
            None => default@,
        },
{
    match raw {
        Some(v) => v,
        None => default.to_owned(),
    }
}

} // verus!
