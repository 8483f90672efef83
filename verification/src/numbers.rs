//! Decimal integer parsing with the rules of the standard library's
//! `FromStr` for integers: an optional sign (`+`, and `-` for signed types)
//! followed by at least one ASCII digit, and a value inside the type's range.
use vstd::prelude::*;

use crate::text::{chars_of, is_ascii_digit};

verus! {

pub open spec fn all_digits(d: Seq<char>) -> bool {
    forall|i: int| 0 <= i < d.len() ==> is_ascii_digit(#[trigger] d[i])
}

pub open spec fn digit_value(c: char) -> int {
    (c as u32) - ('0' as u32)
}

/// The value of a string of decimal digits.
pub open spec fn digits_value(d: Seq<char>) -> int
    decreases d.len(),
{
    if d.len() == 0 {
        0
    } else {
        digits_value(d.drop_last()) * 10 + digit_value(d.last())
    }
}

/// The integer that `s` denotes, when it is an optional sign followed by
/// one or more digits; `signed` says whether a leading `-` is allowed.
pub open spec fn decimal_value(s: Seq<char>, signed: bool) -> Option<int> {
    let negative = signed && s.len() > 0 && s[0] == '-';
    let body = if s.len() > 0 && (s[0] == '+' || negative) {
        s.drop_first()
    } else {
        s
    };
    if body.len() == 0 || !all_digits(body) {
        None
    } else if negative {
        Some(-digits_value(body))
    } else {
        Some(digits_value(body))
    }
}

/// What `s.parse::<i64>()` gives, as an optional integer.
pub open spec fn parsed_i64(s: Seq<char>) -> Option<int> {
    match decimal_value(s, true) {
        Some(v) => if i64::MIN <= v <= i64::MAX {
            Some(v)
        } else {
            None
        },
        None => None,
    }
}

/// What `s.parse::<u64>()` gives, as an optional integer.
pub open spec fn parsed_u64(s: Seq<char>) -> Option<int> {
    match decimal_value(s, false) {
        Some(v) => if v <= u64::MAX {
            Some(v)
        } else {
            None
        },
        None => None,
    }
}

/// What `s.parse::<u16>()` gives, as an optional integer.
pub open spec fn parsed_u16(s: Seq<char>) -> Option<int> {
    match decimal_value(s, false) {
        Some(v) => if v <= u16::MAX {
            Some(v)
        } else {
            None
        },
        None => None,
    }
}

/// The cap at which accumulation stops growing; above every bound checked.
pub open spec fn cap() -> int {
    0x1_0000_0000_0000_0000
}

proof fn lemma_digits_value_nonneg(d: Seq<char>)
    requires
        all_digits(d),
    ensures
        digits_value(d) >= 0,
    decreases d.len(),
{
    if d.len() > 0 {
        lemma_digits_value_nonneg(d.drop_last());
    }
}

proof fn lemma_saturating_step(v: int, dv: int)
    requires
        v >= 0,
        0 <= dv <= 9,
    ensures
        (if v < cap() { v } else { cap() }) * 10 + dv >= cap() ==> v * 10 + dv >= cap(),
        v < cap() ==> (if v < cap() { v } else { cap() }) * 10 + dv == v * 10 + dv,
        v >= cap() ==> v * 10 + dv >= cap(),
{
    assert(v >= cap() ==> v * 10 + dv >= cap()) by (nonlinear_arith)
        requires
            v >= 0,
            dv >= 0,
    ;
}

/// Reads the digits `d[start..]` into a value that saturates at `cap()`;
/// `None` when a character is not a digit or there are no digits.
fn saturating_digits(d: &Vec<char>, start: usize) -> (r: Option<u128>)
    requires
        start <= d.len(),
    ensures
        ({
            let body = d@.skip(start as int);
            match r {
                None => body.len() == 0 || !all_digits(body),
                Some(v) => body.len() > 0 && all_digits(body) && v == (if digits_value(body)
                    < cap() {
                    digits_value(body)
                } else {
                    cap()
                }),
            }
        }),
{
    let ghost body = d@.skip(start as int);
    if start == d.len() {
        return None;
    }
    let mut acc: u128 = 0;
    let mut i: usize = start;
    while i < d.len()
        invariant
            start <= i <= d.len(),
            body == d@.skip(start as int),
            all_digits(body.take(i - start)),
            acc == (if digits_value(body.take(i - start)) < cap() {
                digits_value(body.take(i - start))
            } else {
                cap()
            }),
        decreases d.len() - i,
    {
        let c = d[i];
        if !('0' <= c && c <= '9') {
            assert(body[i - start] == c);
            return None;
        }
        let dv: u32 = (c as u32) - ('0' as u32);
        let ghost prev = body.take(i - start);
        let ghost next = body.take(i + 1 - start);
        proof {
            assert(next.drop_last() =~= prev);
            assert(next.last() == c);
            lemma_digits_value_nonneg(prev);
            lemma_saturating_step(digits_value(prev), dv as int);
        }
        let widened: u128 = acc * 10 + (dv as u128);
        acc = if widened < 0x1_0000_0000_0000_0000 {
            widened
        } else {
            0x1_0000_0000_0000_0000
        };
        i += 1;
        assert(all_digits(next));
    }
    assert(body.take(d.len() - start) =~= body);
    Some(acc)
}

/// `s.parse::<i64>()`, as an `Option`.
pub fn parse_i64(s: &str) -> (r: Option<i64>)
    ensures
        match r {
            Some(v) => parsed_i64(s@) == Some(v as int),
            None => parsed_i64(s@) is None,
        },
{
    let d = chars_of(s);
    let negative = d.len() > 0 && d[0] == '-';
    let start: usize = if d.len() > 0 && (d[0] == '+' || d[0] == '-') {
        1
    } else {
        0
    };
    assert(d@.skip(start as int) =~= (if start == 1 {
        s@.drop_first()
    } else {
        s@
    }));
    match saturating_digits(&d, start) {
        None => None,
        Some(m) => {
            if negative {
                if m <= 0x8000_0000_0000_0000 {
                    Some((0 - (m as i128)) as i64)
                } else {
                    None
                }
            } else if m <= 0x7fff_ffff_ffff_ffff {
                Some(m as i64)
            } else {
                None
            }
        },
    }
}

/// `s.parse::<u64>()`, as an `Option`.
pub fn parse_u64(s: &str) -> (r: Option<u64>)
    ensures
        match r {
            Some(v) => parsed_u64(s@) == Some(v as int),
            None => parsed_u64(s@) is None,
        },
{
    let d = chars_of(s);
    let start: usize = if d.len() > 0 && d[0] == '+' {
        1
    } else {
        0
    };
    assert(d@.skip(start as int) =~= (if start == 1 {
        s@.drop_first()
    } else {
        s@
    }));
    match saturating_digits(&d, start) {
        None => None,
        Some(m) => {
            if m <= 0xffff_ffff_ffff_ffff {
                Some(m as u64)
            } else {
                None
            }
        },
    }
}

/// `s.parse::<u16>()`, as an `Option`.
pub fn parse_u16(s: &str) -> (r: Option<u16>)
    ensures
        match r {
            Some(v) => parsed_u16(s@) == Some(v as int),
            None => parsed_u16(s@) is None,
        },
{
    match parse_u64(s) {
        None => None,
        Some(v) => {
            if v <= 0xffff {
                Some(v as u16)
            } else {
                None
            }
        },
    }
}

/// The ASCII digit of `d` (0 to 9).
pub open spec fn digit_char(d: int) -> char {
    ((48 + d) as u8) as char
}

/// The decimal representation of `n`, without leading zeros.
pub open spec fn decimal_digits(n: nat) -> Seq<char>
    decreases n,
{
    if n < 10 {
        seq![digit_char(n as int)]
    } else {
        decimal_digits(n / 10) + seq![digit_char((n % 10) as int)]
    }
}

/// `n.to_string()`.
pub fn decimal_string(n: u128) -> (r: String)
    ensures
        r@ == decimal_digits(n as nat),
{
    let mut m: u128 = n;
    let mut tail: Vec<char> = Vec::new();
    assert(decimal_digits(n as nat) =~= decimal_digits(m as nat) + tail@);
    while m >= 10
        invariant
            decimal_digits(n as nat) == decimal_digits(m as nat) + tail@,
        decreases m,
    {
        let d: u8 = (m % 10) as u8;
        let c = (48u8 + d) as char;
        let ghost before = tail@;
        tail.insert(0, c);
        assert(decimal_digits(m as nat) == decimal_digits((m / 10) as nat) + seq![c]);
        m = m / 10;
        assert(tail@ =~= seq![c] + before);
        assert(decimal_digits(n as nat) =~= decimal_digits(m as nat) + tail@);
    }
    let first = (48u8 + (m as u8)) as char;
    let mut out: Vec<char> = Vec::new();
    out.push(first);
    let mut i: usize = 0;
    while i < tail.len()
        invariant
            i <= tail.len(),
            out@ == seq![first] + tail@.take(i as int),
        decreases tail.len() - i,
    {
        out.push(tail[i]);
        i += 1;
        assert(out@ =~= seq![first] + tail@.take(i as int));
    }
    assert(tail@.take(tail.len() as int) =~= tail@);
    assert(decimal_digits(m as nat) == seq![first]);
    crate::text::string_of(&out)
}

} // verus!
