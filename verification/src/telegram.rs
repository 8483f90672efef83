//! Telegram Bot API: the bot token setting, the MarkdownV2 escaping that the
//! API demands, and the text and URLs of the requests sent to it.
use vstd::prelude::*;

use crate::channels::{is_success_status, status_is_success};
use crate::text::{is_blank, push_str, trim, trim_str};

verus! {

/// The bot token comes from the environment, never from the contact book.
#[derive(Clone, Debug)]
pub struct TelegramConfig {
    pub bot_token: String,
}

impl TelegramConfig {
    /// Builds the setting from the raw value of `TELEGRAM_BOT_TOKEN`: `None`
    /// when the variable is unset or blank, otherwise the trimmed token. The
    /// caller decides whether a missing token is an error (it is when a
    /// contact uses Telegram).
    pub fn from_env(raw_token: Option<String>) -> (r: Option<TelegramConfig>)
        ensures
            r is None <==> (raw_token is None || is_blank(raw_token->0@)),
            r matches Some(c) ==> c.bot_token@ == trim(raw_token->0@),
    {
        match raw_token {
            None => None,
            Some(t) => {
                let trimmed = trim_str(t.as_str());
                if trimmed.as_str().is_empty() {
                    None
                } else {
                    Some(TelegramConfig { bot_token: trimmed })
                }
            },
        }
    }
}

/// The characters that MarkdownV2 requires to be escaped.
pub open spec fn is_markdown_special(c: char) -> bool {
    c == '_' || c == '*' || c == '[' || c == ']' || c == '(' || c == ')' || c == '~' || c == '`'
        || c == '>' || c == '#' || c == '+' || c == '-' || c == '=' || c == '|' || c == '{' || c
        == '}' || c == '.' || c == '!'
}

fn char_is_markdown_special(c: char) -> (r: bool)
    ensures
        r == is_markdown_special(c),
{
    c == '_' || c == '*' || c == '[' || c == ']' || c == '(' || c == ')' || c == '~' || c == '`'
        || c == '>' || c == '#' || c == '+' || c == '-' || c == '=' || c == '|' || c == '{' || c
        == '}' || c == '.' || c == '!'
}

/// One character as it appears in MarkdownV2 text.
pub open spec fn escape_char(c: char) -> Seq<char> {
    if is_markdown_special(c) {
        seq!['\\', c]
    } else {
        seq![c]
    }
}

/// `s` with a backslash in front of every MarkdownV2 special character.
pub open spec fn escaped(s: Seq<char>) -> Seq<char>
    decreases s.len(),
{
    if s.len() == 0 {
        seq![]
    } else {
        escape_char(s[0]) + escaped(s.drop_first())
    }
}

/// Reads MarkdownV2 text back: a backslash followed by a special character
/// stands for that character.
pub open spec fn unescaped(s: Seq<char>) -> Seq<char>
    decreases s.len(),
{
    if s.len() >= 2 && s[0] == '\\' && is_markdown_special(s[1]) {
        seq![s[1]] + unescaped(s.skip(2))
    } else if s.len() >= 1 {
        seq![s[0]] + unescaped(s.drop_first())
    } else {
        seq![]
    }
}

proof fn lemma_escaped_split(s: Seq<char>, i: int)
    requires
        0 <= i < s.len(),
    ensures
        escaped(s.take(i + 1)) == escaped(s.take(i)) + escape_char(s[i]),
    decreases i,
{
    if i == 0 {
        let one = s.take(1);
        assert(one.drop_first() =~= Seq::<char>::empty());
        assert(s.take(0) =~= Seq::<char>::empty());
        assert(one[0] == s[0]);
        assert(escaped(one.drop_first()) =~= Seq::<char>::empty());
        assert(escaped(one) == escape_char(one[0]) + escaped(one.drop_first()));
        assert(escaped(one) =~= escape_char(s[0]));
    } else {
        lemma_escaped_split(s.drop_first(), i - 1);
        assert(s.take(i + 1).drop_first() =~= s.drop_first().take(i));
        assert(s.take(i).drop_first() =~= s.drop_first().take(i - 1));
        assert(s.take(i + 1)[0] == s[0]);
        assert(s.take(i)[0] == s[0]);
        assert(escaped(s.take(i + 1)) =~= escape_char(s[0]) + escaped(s.drop_first().take(i)));
        assert(escaped(s.take(i)) =~= escape_char(s[0]) + escaped(s.drop_first().take(i - 1)));
    }
}

/// `text` with every MarkdownV2 special character escaped by a backslash;
/// without this the Telegram API rejects the whole message.
pub fn escape_markdown(text: &str) -> (out: String)
    ensures
        out@ == escaped(text@),
{
    let chars = crate::text::chars_of(text);
    let mut out = String::new();
    let mut i: usize = 0;
    while i < chars.len()
        invariant
            i <= chars.len(),
            chars@ == text@,
            out@ == escaped(text@.take(i as int)),
        decreases chars.len() - i,
    {
        let ch = chars[i];
        proof {
            lemma_escaped_split(text@, i as int);
        }
        if char_is_markdown_special(ch) {
            out.push('\\');
        }
        out.push(ch);
        i += 1;
        assert(out@ =~= escaped(text@.take(i as int)));
    }
    assert(text@.take(chars.len() as int) =~= text@);
    out
}

proof fn lemma_escaped_head(s: Seq<char>)
    requires
        escaped(s).len() > 0,
    ensures
        !is_markdown_special(escaped(s)[0]),
        s.len() > 0,
{
    if s.len() == 0 {
    } else {
        assert(escaped(s)[0] == escape_char(s[0])[0]);
    }
}

/// Reading escaped text back gives the original text: escaping loses nothing.
pub proof fn lemma_unescape_escaped(s: Seq<char>)
    ensures
        unescaped(escaped(s)) == s,
    decreases s.len(),
{
    if s.len() > 0 {
        let c = s[0];
        let rest = escaped(s.drop_first());
        lemma_unescape_escaped(s.drop_first());
        let e = escaped(s);
        assert(e == escape_char(c) + rest);
        if is_markdown_special(c) {
            assert(e.skip(2) =~= rest);
            assert(unescaped(e) =~= seq![c] + unescaped(rest));
        } else {
            assert(e.drop_first() =~= rest);
            if e.len() >= 2 && e[0] == '\\' && is_markdown_special(e[1]) {
                assert(e[1] == rest[0]);
                lemma_escaped_head(s.drop_first());
            }
            assert(unescaped(e) =~= seq![c] + unescaped(rest));
        }
        assert(seq![c] + s.drop_first() =~= s);
    } else {
        assert(escaped(s) =~= seq![]);
    }
}

/// The message text: Telegram has no subject, so the subject becomes a bold
/// first line, followed by an empty line and the body; both parts escaped.
pub open spec fn message_text(subject: Seq<char>, body: Seq<char>) -> Seq<char> {
    seq!['*'] + escaped(subject) + seq!['*', '\n', '\n'] + escaped(body)
}

/// Builds the MarkdownV2 text of a message.
pub fn format_message(subject: &str, body: &str) -> (r: String)
    ensures
        r@ == message_text(subject@, body@),
{
    let mut r = String::new();
    r.push('*');
    let s = escape_markdown(subject);
    push_str(&mut r, s.as_str());
    r.push('*');
    r.push('\n');
    r.push('\n');
    let b = escape_markdown(body);
    push_str(&mut r, b.as_str());
    assert(r@ =~= message_text(subject@, body@));
    r
}

/// `https://api.telegram.org/bot<token>/<method>`
pub open spec fn api_url(token: Seq<char>, method: Seq<char>) -> Seq<char> {
    "https://api.telegram.org/bot"@ + token + "/"@ + method
}

/// The URL of a Bot API method for the configured token.
pub fn method_url(cfg: &TelegramConfig, method: &str) -> (r: String)
    ensures
        r@ == api_url(cfg.bot_token@, method@),
{
    let mut r = String::new();
    push_str(&mut r, "https://api.telegram.org/bot");
    push_str(&mut r, cfg.bot_token.as_str());
    push_str(&mut r, "/");
    push_str(&mut r, method);
    r
}

/// What a failed request reports: the API's own description when it gave
/// one, otherwise the HTTP status.
pub open spec fn failure_detail(description: Option<Seq<char>>, status: Seq<char>) -> Seq<char> {
    match description {
        Some(d) => d,
        None => "HTTP "@ + status,
    }
}

/// The Bot API request whose answer is judged.
#[derive(Clone, Copy, Debug, PartialEq, Eq, Structural)]
pub enum ApiCall {
    /// `sendMessage`: a message to a contact.
    Send,
    /// `getMe`: the startup check of the token.
    ConnectionTest,
}

/// How a failure of the request is introduced.
pub open spec fn failure_prefix(call: ApiCall) -> Seq<char> {
    match call {
        ApiCall::Send => "Telegram-Versand fehlgeschlagen: "@,
        ApiCall::ConnectionTest => "Telegram-Verbindungstest fehlgeschlagen: "@,
    }
}

/// Decides the outcome of an API call from the HTTP status code and the
/// `ok` flag of the answer: `Ok` only when the status is 2xx and the answer
/// reports success, otherwise the report of the failure, which gives the
/// API's description or else the status as displayed (e.g.
/// `401 Unauthorized`).
pub fn api_outcome(
    call: ApiCall,
    status_code: u16,
    status: &str,
    ok: bool,
    description: Option<String>,
) -> (r: Result<(), String>)
    ensures
        r is Ok <==> (is_success_status(status_code) && ok),
        r matches Err(e) ==> e@ == failure_prefix(call) + failure_detail(
            match description {
                Some(d) => Some(d@),
                None => None,
            },
            status@,
        ),
{
    if status_is_success(status_code) && ok {
        return Ok(());
    }
    let mut e = String::new();
    match call {
        ApiCall::Send => push_str(&mut e, "Telegram-Versand fehlgeschlagen: "),
        ApiCall::ConnectionTest => push_str(&mut e, "Telegram-Verbindungstest fehlgeschlagen: "),
    }
    match description {
        Some(d) => push_str(&mut e, d.as_str()),
        None => {
            push_str(&mut e, "HTTP ");
            push_str(&mut e, status);
        },
    }
    Err(e)
}

} // verus!
