//! One log line per request: who asked, what, with which outcome, how long
//! it took and, for a refused request, why.
use vstd::prelude::*;

use crate::numbers::{decimal_digits, decimal_string};
use crate::text::{chars_of, push_str, string_of, trim, trim_chars};

verus! {

/// Set on refused responses by the bearer-token check, so that the log line
/// names the reason instead of a separate warning.
#[derive(Clone, Copy, Debug)]
pub struct RejectReason(pub &'static str);

/// The part of `s` before its first `,` (all of `s` when it has none).
pub open spec fn first_segment(s: Seq<char>) -> Seq<char>
    decreases s.len(),
{
    if s.len() == 0 || s[0] == ',' {
        seq![]
    } else {
        seq![s[0]] + first_segment(s.drop_first())
    }
}

/// The client address: the first entry of `X-Forwarded-For` (set by the
/// reverse proxy), trimmed; the peer address of the connection when the
/// header is absent or not text.
pub open spec fn client_address(forwarded_for: Option<Seq<char>>, peer: Seq<char>) -> Seq<char> {
    match forwarded_for {
        Some(f) => trim(first_segment(f)),
        None => peer,
    }
}

proof fn lemma_first_segment_whole(s: Seq<char>)
    requires
        !s.contains(','),
    ensures
        first_segment(s) == s,
    decreases s.len(),
{
    if s.len() > 0 {
        assert(s[0] != ',');
        assert(!s.drop_first().contains(',')) by {
            if s.drop_first().contains(',') {
                let k = choose|k: int| 0 <= k < s.drop_first().len() && s.drop_first()[k] == ',';
                assert(s[k + 1] == ',');
            }
        }
        lemma_first_segment_whole(s.drop_first());
        assert(seq![s[0]] + s.drop_first() =~= s);
    } else {
        assert(s =~= seq![]);
    }
}

proof fn lemma_first_segment_split(a: Seq<char>, b: Seq<char>)
    requires
        !a.contains(','),
    ensures
        first_segment(a + seq![','] + b) == a,
    decreases a.len(),
{
    let s = a + seq![','] + b;
    if a.len() == 0 {
        assert(s[0] == ',');
        assert(a =~= seq![]);
    } else {
        assert(a[0] != ',');
        assert(!a.drop_first().contains(',')) by {
            if a.drop_first().contains(',') {
                let k = choose|k: int| 0 <= k < a.drop_first().len() && a.drop_first()[k] == ',';
                assert(a[k + 1] == ',');
            }
        }
        lemma_first_segment_split(a.drop_first(), b);
        assert(s.drop_first() =~= a.drop_first() + seq![','] + b);
        assert(s[0] == a[0]);
        assert(seq![a[0]] + a.drop_first() =~= a);
    }
}

/// Only a comma ends the first `X-Forwarded-For` entry: a header without a
/// comma names the client as a whole (an IPv6 address with its colons
/// too), and a header `a,b` names the client `a`; either way trimmed.
pub proof fn lemma_client_is_first_entry(a: Seq<char>, b: Seq<char>, peer: Seq<char>)
    requires
        !a.contains(','),
    ensures
        client_address(Some(a), peer) == trim(a),
        client_address(Some(a + seq![','] + b), peer) == trim(a),
{
    lemma_first_segment_whole(a);
    lemma_first_segment_split(a, b);
}

pub fn client_ip(forwarded_for: Option<&str>, peer: &str) -> (r: String)
    ensures
        r@ == client_address(
            match forwarded_for {
                Some(f) => Some(f@),
                None => None,
            },
            peer@,
        ),
{
    match forwarded_for {
        None => peer.to_owned(),
        Some(f) => {
            let chars = chars_of(f);
            let mut seg: Vec<char> = Vec::new();
            let mut i: usize = 0;
            assert(f@.skip(0) =~= f@);
            while i < chars.len() && chars[i] != ','
                invariant
                    i <= chars.len(),
                    chars@ == f@,
                    first_segment(f@) == seg@ + first_segment(f@.skip(i as int)),
                    seg@.len() == i,
                decreases chars.len() - i,
            {
                let ghost rest = f@.skip(i as int);
                assert(rest[0] == chars@[i as int]);
                assert(rest.drop_first() =~= f@.skip(i + 1));
                seg.push(chars[i]);
                i += 1;
                assert(first_segment(f@) =~= seg@ + first_segment(f@.skip(i as int)));
            }
            proof {
                let rest = f@.skip(i as int);
                if i < chars.len() {
                    assert(rest[0] == ',');
                }
                assert(first_segment(rest) =~= seq![]);
                assert(seg@ =~= first_segment(f@));
            }
            let t = trim_chars(&seg);
            string_of(&t)
        },
    }
}

/// Whether the status is a client or server error (400 to 599); such
/// requests are logged as warnings, the rest as information.
pub fn is_error_status(status: u16) -> (r: bool)
    ensures
        r == (400 <= status < 600),
{
    400 <= status && status < 600
}

/// `s`, filled up with spaces to at least `width` characters.
pub open spec fn padded(s: Seq<char>, width: nat) -> Seq<char> {
    if s.len() >= width {
        s
    } else {
        s + Seq::new((width - s.len()) as nat, |i: int| ' ')
    }
}

fn push_padded(out: &mut String, s: &str, width: usize)
    ensures
        final(out)@ == old(out)@ + padded(s@, width as nat),
{
    let chars = chars_of(s);
    push_str(out, s);
    let mut n: usize = chars.len();
    let ghost start = old(out)@ + s@;
    while n < width
        invariant
            chars@ == s@,
            chars.len() <= n,
            n <= width || n == chars.len(),
            out@ == start + Seq::new((n - chars.len()) as nat, |i: int| ' '),
        decreases width - n,
    {
        out.push(' ');
        n += 1;
        assert(out@ =~= start + Seq::new((n - chars.len()) as nat, |i: int| ' '));
    }
    proof {
        if s@.len() >= width {
            assert(Seq::new(0, |i: int| ' ') =~= Seq::<char>::empty());
            assert(out@ =~= old(out)@ + s@);
        } else {
            assert(out@ =~= old(out)@ + padded(s@, width as nat));
        }
    }
}

/// `<ip, 15 wide> <method> <path, 20 wide> -> <status> (<ms>ms)[ [<reason>]]`;
/// the method is written as it is (its formatting ignores the width).
pub open spec fn log_line_text(
    ip: Seq<char>,
    method: Seq<char>,
    path: Seq<char>,
    status: nat,
    elapsed_ms: nat,
    reason: Option<Seq<char>>,
) -> Seq<char> {
    padded(ip, 15) + " "@ + method + " "@ + padded(path, 20) + " -> "@ + decimal_digits(status)
        + " ("@ + decimal_digits(elapsed_ms) + "ms)"@ + match reason {
        Some(r) => " ["@ + r + "]"@,
        None => seq![],
    }
}

pub fn log_line(
    ip: &str,
    method: &str,
    path: &str,
    status: u16,
    elapsed_ms: u128,
    reason: Option<&RejectReason>,
) -> (r: String)
    ensures
        r@ == log_line_text(
            ip@,
            method@,
            path@,
            status as nat,
            elapsed_ms as nat,
            match reason {
                Some(x) => Some(x.0@),
                None => None,
            },
        ),
{
    let mut r = String::new();
    push_padded(&mut r, ip, 15);
    push_str(&mut r, " ");
    push_str(&mut r, method);
    push_str(&mut r, " ");
    push_padded(&mut r, path, 20);
    push_str(&mut r, " -> ");
    let s = decimal_string(status as u128);
    push_str(&mut r, s.as_str());
    push_str(&mut r, " (");
    let e = decimal_string(elapsed_ms);
    push_str(&mut r, e.as_str());
    push_str(&mut r, "ms)");
    match reason {
        Some(x) => {
            push_str(&mut r, " [");
            push_str(&mut r, x.0);
            push_str(&mut r, "]");
        },
        None => {},
    }
    r
}

} // verus!
