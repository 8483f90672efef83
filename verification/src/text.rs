//! Character-level helpers shared by the configuration, channel and
//! formatting code: whitespace trimming, ASCII classification, the
//! conversions between `&str`, `String` and `Vec<char>`, and cutting a
//! text out of another wherever it occurs.
use vstd::prelude::*;

verus! {

/// `String::push` appends the character at the end of the string; that is
/// all its contract claims.
pub assume_specification[ String::push ](s: &mut String, ch: char)
    ensures
        final(s)@ == old(s)@.push(ch),
;

/// The characters with the Unicode `White_Space` property, which is what
/// `char::is_whitespace` (and therefore `str::trim`) tests for.
pub open spec fn is_whitespace(c: char) -> bool {
    ||| ('\u{9}' <= c && c <= '\u{d}')
    ||| c == ' '
    ||| c == '\u{85}'
    ||| c == '\u{a0}'
    ||| c == '\u{1680}'
    ||| ('\u{2000}' <= c && c <= '\u{200a}')
    ||| c == '\u{2028}'
    ||| c == '\u{2029}'
    ||| c == '\u{202f}'
    ||| c == '\u{205f}'
    ||| c == '\u{3000}'
}

pub fn char_is_whitespace(c: char) -> (r: bool)
    ensures
        r == is_whitespace(c),
{
    ('\u{9}' <= c && c <= '\u{d}') || c == ' ' || c == '\u{85}' || c == '\u{a0}' || c
        == '\u{1680}' || ('\u{2000}' <= c && c <= '\u{200a}') || c == '\u{2028}' || c
        == '\u{2029}' || c == '\u{202f}' || c == '\u{205f}' || c == '\u{3000}'
}

/// `s` without its leading whitespace.
pub open spec fn trim_start(s: Seq<char>) -> Seq<char>
    decreases s.len(),
{
    if s.len() > 0 && is_whitespace(s[0]) {
        trim_start(s.drop_first())
    } else {
        s
    }
}

/// `s` without its trailing whitespace.
pub open spec fn trim_end(s: Seq<char>) -> Seq<char>
    decreases s.len(),
{
    if s.len() > 0 && is_whitespace(s.last()) {
        trim_end(s.drop_last())
    } else {
        s
    }
}

/// What `str::trim` returns.
pub open spec fn trim(s: Seq<char>) -> Seq<char> {
    trim_end(trim_start(s))
}

/// True when `s` holds nothing but whitespace.
pub open spec fn is_blank(s: Seq<char>) -> bool {
    trim(s).len() == 0
}

pub open spec fn is_ascii_digit(c: char) -> bool {
    '0' <= c && c <= '9'
}

pub open spec fn is_ascii_upper(c: char) -> bool {
    'A' <= c && c <= 'Z'
}

pub open spec fn is_ascii_lower(c: char) -> bool {
    'a' <= c && c <= 'z'
}

pub open spec fn is_ascii_alnum(c: char) -> bool {
    is_ascii_digit(c) || is_ascii_upper(c) || is_ascii_lower(c)
}

/// What `char::to_ascii_lowercase` returns.
pub open spec fn ascii_lower(c: char) -> char {
    if is_ascii_upper(c) {
        (((c as u8) + 32) as u8) as char
    } else {
        c
    }
}

pub fn char_is_ascii_alnum(c: char) -> (r: bool)
    ensures
        r == is_ascii_alnum(c),
{
    ('0' <= c && c <= '9') || ('A' <= c && c <= 'Z') || ('a' <= c && c <= 'z')
}

pub fn char_to_ascii_lower(c: char) -> (r: char)
    ensures
        r == ascii_lower(c),
{
    if 'A' <= c && c <= 'Z' {
        let code: u8 = (c as u8) + 32;
        code as char
    } else {
        c
    }
}

pub proof fn lemma_ascii_lower_is_lower(c: char)
    requires
        is_ascii_alnum(c),
    ensures
        is_ascii_digit(ascii_lower(c)) || is_ascii_lower(ascii_lower(c)),
{
}

/// The characters of a string slice, one element per `char`.
pub fn chars_of(s: &str) -> (v: Vec<char>)
    ensures
        v@ == s@,
{
    let mut v: Vec<char> = Vec::new();
    for c in it: s.chars()
        invariant
            v@ == it.seq().take(it.index() as int),
            it.seq() == s@,
    {
        v.push(c);
    }
    v
}

/// Collects characters into a `String`.
pub fn string_of(chars: &Vec<char>) -> (s: String)
    ensures
        s@ == chars@,
{
    let mut s = String::new();
    let mut i: usize = 0;
    while i < chars.len()
        invariant
            i <= chars.len(),
            s@ == chars@.take(i as int),
        decreases chars.len() - i,
    {
        s.push(chars[i]);
        i += 1;
        assert(s@ =~= chars@.take(i as int));
    }
    assert(s@ =~= chars@);
    s
}

/// Appends `t` to `s`.
pub fn push_str(s: &mut String, t: &str)
    ensures
        final(s)@ == old(s)@ + t@,
{
    s.append(t);
}

proof fn lemma_trim_start_skip(s: Seq<char>, i: int)
    requires
        0 <= i <= s.len(),
        forall|k: int| 0 <= k < i ==> is_whitespace(#[trigger] s[k]),
    ensures
        trim_start(s) == trim_start(s.skip(i)),
    decreases i,
{
    if i > 0 {
        assert(s.drop_first().skip(i - 1) =~= s.skip(i));
        lemma_trim_start_skip(s.drop_first(), i - 1);
    } else {
        assert(s.skip(0) =~= s);
    }
}

proof fn lemma_trim_end_take(s: Seq<char>, j: int)
    requires
        0 <= j <= s.len(),
        forall|k: int| j <= k < s.len() ==> is_whitespace(#[trigger] s[k]),
    ensures
        trim_end(s) == trim_end(s.take(j)),
    decreases s.len() - j,
{
    if j < s.len() {
        assert(s.drop_last().take(j) =~= s.take(j));
        lemma_trim_end_take(s.drop_last(), j);
    } else {
        assert(s.take(j) =~= s);
    }
}

/// `s` without leading and trailing whitespace, as `str::trim` gives it.
pub fn trim_chars(s: &Vec<char>) -> (r: Vec<char>)
    ensures
        r@ == trim(s@),
{
    let n = s.len();
    let mut lo: usize = 0;
    while lo < n && char_is_whitespace(s[lo])
        invariant
            lo <= n,
            n == s.len(),
            forall|k: int| 0 <= k < lo ==> is_whitespace(#[trigger] s@[k]),
        decreases n - lo,
    {
        lo += 1;
    }
    proof {
        lemma_trim_start_skip(s@, lo as int);
    }
    let ghost t = s@.skip(lo as int);
    assert(trim_start(s@) == t) by {
        if t.len() > 0 {
            assert(t[0] == s@[lo as int]);
        }
    }
    let mut hi: usize = n;
    while hi > lo && char_is_whitespace(s[hi - 1])
        invariant
            lo <= hi <= n,
            n == s.len(),
            t == s@.skip(lo as int),
            forall|k: int| hi - lo <= k < t.len() ==> is_whitespace(#[trigger] t[k]),
        decreases hi,
    {
        hi -= 1;
    }
    proof {
        lemma_trim_end_take(t, (hi - lo) as int);
    }
    let mut r: Vec<char> = Vec::new();
    let mut i: usize = lo;
    while i < hi
        invariant
            lo <= i <= hi <= n,
            n == s.len(),
            r@ == s@.subrange(lo as int, i as int),
        decreases hi - i,
    {
        r.push(s[i]);
        i += 1;
        assert(r@ =~= s@.subrange(lo as int, i as int));
    }
    assert(r@ =~= t.take((hi - lo) as int));
    let ghost u = t.take((hi - lo) as int);
    assert(trim_end(u) == u) by {
        if u.len() > 0 {
            assert(u.last() == s@[hi - 1]);
        }
    }
    r
}

/// `str::trim`, as an owned `String`.
pub fn trim_str(s: &str) -> (r: String)
    ensures
        r@ == trim(s@),
{
    let v = chars_of(s);
    let t = trim_chars(&v);
    string_of(&t)
}

/// True when `s` is empty or only whitespace.
pub fn str_is_blank(s: &str) -> (r: bool)
    ensures
        r == is_blank(s@),
{
    let t = trim_str(s);
    t.as_str().is_empty()
}

/// Whether `s` holds the character `c`.
pub fn contains_char(s: &str, c: char) -> (r: bool)
    ensures
        r == s@.contains(c),
{
    let v = chars_of(s);
    let mut i: usize = 0;
    while i < v.len()
        invariant
            i <= v.len(),
            v@ == s@,
            forall|k: int| 0 <= k < i ==> v@[k] != c,
        decreases v.len() - i,
    {
        if v[i] == c {
            assert(s@[i as int] == c);
            return true;
        }
        i += 1;
    }
    false
}

/// Whether `s` begins with `prefix`.
pub fn starts_with(s: &str, prefix: &str) -> (r: bool)
    ensures
        r == (prefix@.len() <= s@.len() && s@.take(prefix@.len() as int) == prefix@),
{
    let v = chars_of(s);
    let p = chars_of(prefix);
    if p.len() > v.len() {
        return false;
    }
    let mut i: usize = 0;
    while i < p.len()
        invariant
            i <= p.len() <= v.len(),
            v@ == s@,
            p@ == prefix@,
            forall|k: int| 0 <= k < i ==> v@[k] == p@[k],
        decreases p.len() - i,
    {
        if v[i] != p[i] {
            assert(s@.take(prefix@.len() as int)[i as int] != prefix@[i as int]);
            return false;
        }
        i += 1;
    }
    assert(s@.take(prefix@.len() as int) =~= prefix@);
    true
}

/// Equality of two string slices, character by character.
pub fn str_eq(a: &str, b: &str) -> (r: bool)
    ensures
        r == (a@ == b@),
{
    let x = chars_of(a);
    let y = chars_of(b);
    if x.len() != y.len() {
        return false;
    }
    let mut i: usize = 0;
    while i < x.len()
        invariant
            i <= x.len() == y.len(),
            x@ == a@,
            y@ == b@,
            forall|k: int| 0 <= k < i ==> x@[k] == y@[k],
        decreases x.len() - i,
    {
        if x[i] != y[i] {
            return false;
        }
        i += 1;
    }
    assert(x@ =~= y@);
    true
}


/// Whether `a` occurs in `s` starting at position `j`.
pub open spec fn occurs_at(s: Seq<char>, a: Seq<char>, j: int) -> bool {
    0 <= j && j + a.len() <= s.len() && s.subrange(j, j + a.len()) == a
}

/// Whether `a` occurs somewhere in `s`.
pub open spec fn contains_seq(s: Seq<char>, a: Seq<char>) -> bool {
    exists|j: int| occurs_at(s, a, j)
}

/// The first position at or after `i` where `a` occurs in `s`, or -1 when
/// there is none.
pub open spec fn find_from(s: Seq<char>, a: Seq<char>, i: int) -> int
    decreases s.len() + 1 - i,
{
    if i < 0 || i + a.len() > s.len() {
        -1
    } else if occurs_at(s, a, i) {
        i
    } else {
        find_from(s, a, i + 1)
    }
}

/// `find_from` finds the first occurrence at or after `i`, or reports that
/// there is none.
pub proof fn lemma_find_from(s: Seq<char>, a: Seq<char>, i: int)
    requires
        0 <= i,
    ensures
        find_from(s, a, i) == -1 ==> forall|j: int| i <= j ==> !#[trigger] occurs_at(s, a, j),
        find_from(s, a, i) != -1 ==> {
            &&& i <= find_from(s, a, i)
            &&& occurs_at(s, a, find_from(s, a, i))
            &&& forall|j: int| i <= j < find_from(s, a, i) ==> !#[trigger] occurs_at(s, a, j)
        },
    decreases s.len() + 1 - i,
{
    if i + a.len() <= s.len() && !occurs_at(s, a, i) {
        lemma_find_from(s, a, i + 1);
    }
}

/// `s` with `a` cut out, again and again, until it no longer occurs; the
/// first occurrence goes first. An empty `a` leaves `s` as it is.
pub open spec fn redacted(s: Seq<char>, a: Seq<char>) -> Seq<char>
    decreases s.len(),
{
    let j = find_from(s, a, 0);
    if a.len() == 0 || j == -1 {
        s
    } else {
        proof {
            lemma_find_from(s, a, 0);
        }
        redacted(s.take(j) + s.skip(j + a.len()), a)
    }
}

/// After redaction the text no longer holds what was cut out.
pub proof fn lemma_redacted_free(s: Seq<char>, a: Seq<char>)
    requires
        a.len() > 0,
    ensures
        !contains_seq(redacted(s, a), a),
    decreases s.len(),
{
    lemma_find_from(s, a, 0);
    let j = find_from(s, a, 0);
    if j != -1 {
        lemma_redacted_free(s.take(j) + s.skip(j + a.len()), a);
    }
}

/// Text that does not hold `a` comes out of the redaction unchanged.
pub proof fn lemma_redacted_unchanged(s: Seq<char>, a: Seq<char>)
    requires
        !contains_seq(s, a),
    ensures
        redacted(s, a) == s,
{
    lemma_find_from(s, a, 0);
}

/// Whether `a` occurs in `s` at position `i`.
fn occurs_here(s: &Vec<char>, a: &Vec<char>, i: usize) -> (r: bool)
    requires
        i + a.len() <= s.len(),
    ensures
        r == occurs_at(s@, a@, i as int),
{
    let mut k: usize = 0;
    while k < a.len()
        invariant
            k <= a.len(),
            i + a.len() <= s.len(),
            forall|t: int| 0 <= t < k ==> s@[i + t] == a@[t],
        decreases a.len() - k,
    {
        if s[i + k] != a[k] {
            assert(s@.subrange(i as int, i + a@.len())[k as int] != a@[k as int]);
            return false;
        }
        k += 1;
    }
    assert(s@.subrange(i as int, i + a@.len()) =~= a@);
    true
}

/// The first position where `a` occurs in `s`.
fn first_occurrence(s: &Vec<char>, a: &Vec<char>) -> (r: Option<usize>)
    ensures
        match r {
            Some(j) => find_from(s@, a@, 0) == j,
            None => find_from(s@, a@, 0) == -1,
        },
{
    let n = s.len();
    let m = a.len();
    if m > n {
        return None;
    }
    if m == 0 {
        assert(s@.subrange(0, 0) =~= a@);
        return Some(0);
    }
    let mut i: usize = 0;
    while i <= n - m
        invariant
            0 < m <= n,
            n == s@.len(),
            m == a@.len(),
            i <= n - m + 1,
            find_from(s@, a@, 0) == find_from(s@, a@, i as int),
        decreases n - m + 1 - i,
    {
        if occurs_here(s, a, i) {
            return Some(i);
        }
        i += 1;
    }
    None
}

/// `s` without the `len` characters from position `j` on.
fn cut(s: &Vec<char>, j: usize, len: usize) -> (r: Vec<char>)
    requires
        j + len <= s.len(),
    ensures
        r@ == s@.take(j as int) + s@.skip(j + len),
{
    let mut r: Vec<char> = Vec::new();
    let mut i: usize = 0;
    while i < j
        invariant
            i <= j,
            j + len <= s.len(),
            r@ == s@.take(i as int),
        decreases j - i,
    {
        r.push(s[i]);
        i += 1;
        assert(r@ =~= s@.take(i as int));
    }
    let mut k: usize = j + len;
    while k < s.len()
        invariant
            j + len <= k <= s@.len(),
            r@ == s@.take(j as int) + s@.subrange(j + len, k as int),
        decreases s.len() - k,
    {
        r.push(s[k]);
        k += 1;
        assert(r@ =~= s@.take(j as int) + s@.subrange(j + len, k as int));
    }
    assert(s@.subrange(j + len, s@.len() as int) =~= s@.skip(j + len));
    r
}

/// `s` with every occurrence of `a` cut out, as `redacted` describes.
pub fn redact(s: &str, a: &str) -> (r: String)
    ensures
        r@ == redacted(s@, a@),
{
    let av = chars_of(a);
    let mut cur = chars_of(s);
    if av.len() == 0 {
        return string_of(&cur);
    }
    loop
        invariant
            av@ == a@,
            a@.len() > 0,
            redacted(cur@, a@) == redacted(s@, a@),
        decreases cur.len(),
    {
        match first_occurrence(&cur, &av) {
            None => {
                return string_of(&cur);
            },
            Some(j) => {
                proof {
                    lemma_find_from(cur@, a@, 0);
                }
                let next = cut(&cur, j, av.len());
                cur = next;
            },
        }
    }
}

} // verus!
