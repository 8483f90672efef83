//! The ntfy channel: messages are published to a topic on an ntfy server.
use vstd::prelude::*;

use super::{ChannelDef, ChannelKind, ChannelValueError, ValueProblem};
use crate::text::{chars_of, is_ascii_alnum, char_is_ascii_alnum, is_blank, push_str, trim, trim_str};

verus! {

pub open spec fn is_ntfy_def(d: ChannelDef) -> bool {
    &&& d.config_key@ == "ntfy_topic"@
    &&& d.slug@ == "ntfy"@
    &&& d.display_name@ == "ntfy"@
    &&& d.kind == ChannelKind::Ntfy
}

pub fn channel_def() -> (d: ChannelDef)
    ensures
        is_ntfy_def(d),
{
    ChannelDef { config_key: "ntfy_topic", slug: "ntfy", display_name: "ntfy", kind: ChannelKind::Ntfy }
}

pub open spec fn is_topic_char(c: char) -> bool {
    is_ascii_alnum(c) || c == '_' || c == '-'
}

/// A topic is effectively the secret; only letters, digits, `_` and `-`
/// are allowed, so that no value can break the URL path or a header.
pub open spec fn topic_problem(topic: Seq<char>) -> Option<ValueProblem> {
    if topic.len() > 0 && forall|i: int| 0 <= i < topic.len() ==> is_topic_char(#[trigger] topic[i]) {
        None
    } else {
        Some(ValueProblem::NotANtfyTopic)
    }
}

pub fn validate_topic(topic: &str) -> (r: Result<(), ChannelValueError>)
    ensures
        super::check_matches(r, topic_problem(topic@), topic@),
{
    let chars = chars_of(topic);
    let mut valid = chars.len() > 0;
    let mut i: usize = 0;
    while i < chars.len()
        invariant
            i <= chars.len(),
            chars@ == topic@,
            valid == (chars.len() > 0 && forall|k: int| 0 <= k < i ==> is_topic_char(#[trigger] topic@[k])),
        decreases chars.len() - i,
    {
        let c = chars[i];
        if !(char_is_ascii_alnum(c) || c == '_' || c == '-') {
            valid = false;
        }
        i += 1;
    }
    if !valid {
        return Err(ChannelValueError { problem: ValueProblem::NotANtfyTopic, value: topic.to_owned() });
    }
    Ok(())
}

/// The server and the optional access token come from the environment.
#[derive(Clone, Debug)]
pub struct NtfyConfig {
    /// Without a trailing "/", e.g. "https://ntfy.sh" (the default).
    pub server: String,
    /// Only needed when the server or topic asks for access control.
    pub access_token: Option<String>,
}

/// The trimmed value, or `None` when it is missing or blank.
pub open spec fn non_empty_value(v: Option<Seq<char>>) -> Option<Seq<char>> {
    match v {
        Some(s) => if is_blank(s) {
            None
        } else {
            Some(trim(s))
        },
        None => None,
    }
}

/// `s` without the `/` characters at its end.
pub open spec fn strip_trailing_slashes(s: Seq<char>) -> Seq<char>
    decreases s.len(),
{
    if s.len() > 0 && s.last() == '/' {
        strip_trailing_slashes(s.drop_last())
    } else {
        s
    }
}

pub open spec fn default_server() -> Seq<char> {
    "https://ntfy.sh"@
}

/// The server that the raw `NTFY_SERVER` value selects.
pub open spec fn server_from(raw: Option<Seq<char>>) -> Seq<char> {
    match non_empty_value(raw) {
        Some(s) => strip_trailing_slashes(s),
        None => strip_trailing_slashes(default_server()),
    }
}

pub fn non_empty(v: Option<String>) -> (r: Option<String>)
    ensures
        opt_view(r) == non_empty_value(opt_view(v)),
{
    match v {
        None => None,
        Some(s) => {
            let t = trim_str(s.as_str());
            if t.as_str().is_empty() {
                None
            } else {
                Some(t)
            }
        },
    }
}

pub open spec fn opt_view(o: Option<String>) -> Option<Seq<char>> {
    super::opt_view(o)
}

fn trim_end_slashes(s: &str) -> (r: String)
    ensures
        r@ == strip_trailing_slashes(s@),
{
    let mut v = chars_of(s);
    while v.len() > 0 && v[v.len() - 1] == '/'
        invariant
            strip_trailing_slashes(v@) == strip_trailing_slashes(s@),
        decreases v.len(),
    {
        let ghost before = v@;
        v.pop();
        assert(v@ =~= before.drop_last());
    }
    crate::text::string_of(&v)
}

impl NtfyConfig {
    /// Builds the settings from the raw values of `NTFY_SERVER` and
    /// `NTFY_ACCESS_TOKEN`: a blank or missing server falls back to
    /// "https://ntfy.sh", trailing slashes are removed; a blank token counts
    /// as none.
    pub fn from_env(raw_server: Option<String>, raw_token: Option<String>) -> (r: NtfyConfig)
        ensures
            r.server@ == server_from(opt_view(raw_server)),
            opt_view(r.access_token) == non_empty_value(opt_view(raw_token)),
            r.server@.len() == 0 || r.server@.last() != '/',
    {
        let chosen = match non_empty(raw_server) {
            Some(s) => s,
            None => "https://ntfy.sh".to_owned(),
        };
        let server = trim_end_slashes(chosen.as_str());
        let access_token = non_empty(raw_token);
        proof {
            lemma_strip_trailing_slashes(chosen@);
        }
        NtfyConfig { server, access_token }
    }
}

proof fn lemma_strip_trailing_slashes(s: Seq<char>)
    ensures
        strip_trailing_slashes(s).len() == 0 || strip_trailing_slashes(s).last() != '/',
    decreases s.len(),
{
    if s.len() > 0 && s.last() == '/' {
        lemma_strip_trailing_slashes(s.drop_last());
    }
}

/// `<server>/<topic>`: where a message to a topic is published.
pub fn publish_url(cfg: &NtfyConfig, topic: &str) -> (r: String)
    ensures
        r@ == cfg.server@ + "/"@ + topic@,
{
    let mut r = String::new();
    push_str(&mut r, cfg.server.as_str());
    push_str(&mut r, "/");
    push_str(&mut r, topic);
    r
}

/// `<server>/v1/health`: the health endpoint used by the startup check.
pub fn health_url(cfg: &NtfyConfig) -> (r: String)
    ensures
        r@ == cfg.server@ + "/v1/health"@,
{
    let mut r = String::new();
    push_str(&mut r, cfg.server.as_str());
    push_str(&mut r, "/v1/health");
    r
}

/// The outcome of the startup check against `/v1/health`: the server must
/// answer with a 2xx status and report itself healthy. `status` is the
/// status as displayed (e.g. `503 Service Unavailable`); `healthy` is only
/// read after a 2xx answer.
pub fn health_outcome(status_code: u16, status: &str, healthy: bool) -> (r: Result<(), String>)
    ensures
        r is Ok <==> (super::is_success_status(status_code) && healthy),
        r matches Err(e) ==> e@ == if !super::is_success_status(status_code) {
            "ntfy-Verbindungstest fehlgeschlagen: HTTP "@ + status@
        } else {
            "ntfy-Verbindungstest fehlgeschlagen: Server meldet sich nicht als 'healthy'"@
        },
{
    let mut e = String::new();
    if !super::status_is_success(status_code) {
        push_str(&mut e, "ntfy-Verbindungstest fehlgeschlagen: HTTP ");
        push_str(&mut e, status);
        return Err(e);
    }
    if !healthy {
        push_str(&mut e, "ntfy-Verbindungstest fehlgeschlagen: Server meldet sich nicht als 'healthy'");
        return Err(e);
    }
    Ok(())
}

} // verus!
