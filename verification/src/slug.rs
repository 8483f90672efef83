//! Turning a contact's display name into the identifier used in tool names.
use vstd::prelude::*;

use crate::text::{
    ascii_lower, char_is_ascii_alnum, char_to_ascii_lower, chars_of, is_ascii_alnum,
    is_ascii_digit, is_ascii_lower, string_of,
};

verus! {

/// German umlauts and sharp s spelled out in ASCII; any other character
/// stays as it is.
pub open spec fn transliterate(c: char) -> Seq<char> {
    if c == 'ä' {
        seq!['a', 'e']
    } else if c == 'ö' {
        seq!['o', 'e']
    } else if c == 'ü' {
        seq!['u', 'e']
    } else if c == 'Ä' {
        seq!['A', 'e']
    } else if c == 'Ö' {
        seq!['O', 'e']
    } else if c == 'Ü' {
        seq!['U', 'e']
    } else if c == 'ß' {
        seq!['s', 's']
    } else {
        seq![c]
    }
}

pub open spec fn transliterate_all(s: Seq<char>) -> Seq<char>
    decreases s.len(),
{
    if s.len() == 0 {
        seq![]
    } else {
        transliterate(s[0]) + transliterate_all(s.drop_first())
    }
}

/// ASCII letters and digits become lowercase; every run of other characters
/// becomes a single `_`, except right after the start (when `after_sep`
/// holds there) or after another `_`.
pub open spec fn collapse(s: Seq<char>, after_sep: bool) -> Seq<char>
    decreases s.len(),
{
    if s.len() == 0 {
        seq![]
    } else if is_ascii_alnum(s[0]) {
        seq![ascii_lower(s[0])] + collapse(s.drop_first(), false)
    } else if !after_sep {
        seq!['_'] + collapse(s.drop_first(), true)
    } else {
        collapse(s.drop_first(), true)
    }
}

/// `s` without the underscores at its end.
pub open spec fn strip_trailing_separators(s: Seq<char>) -> Seq<char>
    decreases s.len(),
{
    if s.len() > 0 && s.last() == '_' {
        strip_trailing_separators(s.drop_last())
    } else {
        s
    }
}

/// The slug that is used when nothing of the name survives.
pub open spec fn fallback_slug() -> Seq<char> {
    seq!['c', 'o', 'n', 't', 'a', 'c', 't']
}

/// The slug of a display name.
pub open spec fn slug_of(name: Seq<char>) -> Seq<char> {
    let s = strip_trailing_separators(collapse(transliterate_all(name), true));
    if s.len() == 0 {
        fallback_slug()
    } else {
        s
    }
}

/// A character that may stand in a slug.
pub open spec fn is_slug_char(c: char) -> bool {
    is_ascii_lower(c) || is_ascii_digit(c) || c == '_'
}

/// The shape of every slug: not empty, made of `[a-z0-9_]`, no `_` at
/// either end and never two in a row.
pub open spec fn is_slug(s: Seq<char>) -> bool {
    &&& s.len() > 0
    &&& forall|i: int| 0 <= i < s.len() ==> is_slug_char(#[trigger] s[i])
    &&& s[0] != '_'
    &&& s.last() != '_'
    &&& forall|i: int| 0 <= i < s.len() - 1 ==> !(#[trigger] s[i] == '_' && s[i + 1] == '_')
}

fn push_transliterated(out: &mut Vec<char>, c: char)
    ensures
        final(out)@ == old(out)@ + transliterate(c),
{
    if c == 'ä' {
        out.push('a');
        out.push('e');
    } else if c == 'ö' {
        out.push('o');
        out.push('e');
    } else if c == 'ü' {
        out.push('u');
        out.push('e');
    } else if c == 'Ä' {
        out.push('A');
        out.push('e');
    } else if c == 'Ö' {
        out.push('O');
        out.push('e');
    } else if c == 'Ü' {
        out.push('U');
        out.push('e');
    } else if c == 'ß' {
        out.push('s');
        out.push('s');
    } else {
        out.push(c);
    }
    assert(final(out)@ =~= old(out)@ + transliterate(c));
}

/// Derives a stable, tool-name-ready slug from a display name: German
/// umlauts are transliterated, everything else is reduced to `[a-z0-9_]`.
pub fn slugify(name: &str) -> (slug: String)
    ensures
        slug@ == slug_of(name@),
{
    let chars = chars_of(name);
    let mut normalized: Vec<char> = Vec::new();
    let mut i: usize = 0;
    assert(normalized@ + transliterate_all(name@.skip(0)) =~= transliterate_all(name@)) by {
        assert(name@.skip(0) =~= name@);
    }
    while i < chars.len()
        invariant
            i <= chars.len(),
            chars@ == name@,
            normalized@ + transliterate_all(name@.skip(i as int)) == transliterate_all(name@),
        decreases chars.len() - i,
    {
        let ghost before = normalized@;
        push_transliterated(&mut normalized, chars[i]);
        proof {
            let rest = name@.skip(i as int);
            assert(rest[0] == chars@[i as int]);
            assert(rest.drop_first() =~= name@.skip(i + 1));
            assert(transliterate_all(rest) == transliterate(rest[0]) + transliterate_all(
                rest.drop_first(),
            ));
            assert(normalized@ + transliterate_all(name@.skip(i + 1)) =~= before
                + transliterate_all(rest));
        }
        i += 1;
    }
    assert(name@.skip(chars.len() as int) =~= seq![]);
    assert(normalized@ =~= transliterate_all(name@));

    let mut out: Vec<char> = Vec::new();
    let mut after_sep = true;
    let mut j: usize = 0;
    assert(out@ + collapse(normalized@.skip(0), true) =~= collapse(normalized@, true)) by {
        assert(normalized@.skip(0) =~= normalized@);
    }
    while j < normalized.len()
        invariant
            j <= normalized.len(),
            normalized@ == transliterate_all(name@),
            out@ + collapse(normalized@.skip(j as int), after_sep) == collapse(normalized@, true),
        decreases normalized.len() - j,
    {
        let ch = normalized[j];
        let ghost rest = normalized@.skip(j as int);
        let ghost before = out@;
        let ghost sep_before = after_sep;
        proof {
            assert(rest[0] == ch);
            assert(rest.drop_first() =~= normalized@.skip(j + 1));
        }
        if char_is_ascii_alnum(ch) {
            out.push(char_to_ascii_lower(ch));
            after_sep = false;
        } else if !after_sep {
            out.push('_');
            after_sep = true;
        }
        proof {
            if is_ascii_alnum(ch) {
                assert(collapse(rest, sep_before) == seq![ascii_lower(ch)] + collapse(
                    rest.drop_first(),
                    false,
                ));
                assert(out@ + collapse(normalized@.skip(j + 1), after_sep) =~= before + collapse(
                    rest,
                    sep_before,
                ));
            } else if !sep_before {
                assert(out@ + collapse(normalized@.skip(j + 1), after_sep) =~= before + collapse(
                    rest,
                    sep_before,
                ));
            } else {
                assert(out@ + collapse(normalized@.skip(j + 1), after_sep) =~= before + collapse(
                    rest,
                    sep_before,
                ));
            }
        }
        j += 1;
    }
    assert(normalized@.skip(normalized.len() as int) =~= seq![]);
    assert(out@ =~= collapse(normalized@, true));
    let ghost collapsed = out@;

    while out.len() > 0 && out[out.len() - 1] == '_'
        invariant
            strip_trailing_separators(out@) == strip_trailing_separators(collapsed),
        decreases out.len(),
    {
        let ghost before = out@;
        out.pop();
        assert(out@ =~= before.drop_last());
    }
    assert(strip_trailing_separators(out@) == out@);
    if out.len() == 0 {
        let mut fallback: Vec<char> = Vec::new();
        fallback.push('c');
        fallback.push('o');
        fallback.push('n');
        fallback.push('t');
        fallback.push('a');
        fallback.push('c');
        fallback.push('t');
        assert(fallback@ =~= fallback_slug());
        return string_of(&fallback);
    }
    string_of(&out)
}

/// Everything `collapse` emits is a slug character, it never emits `_`
/// first when it starts after a separator, and never two `_` in a row.
proof fn lemma_collapse_shape(s: Seq<char>, after_sep: bool)
    ensures
        ({
            let c = collapse(s, after_sep);
            &&& forall|i: int| 0 <= i < c.len() ==> is_slug_char(#[trigger] c[i])
            &&& (after_sep && c.len() > 0) ==> c[0] != '_'
            &&& forall|i: int| 0 <= i < c.len() - 1 ==> !(#[trigger] c[i] == '_' && c[i + 1] == '_')
        }),
    decreases s.len(),
{
    if s.len() > 0 {
        let rest = s.drop_first();
        if is_ascii_alnum(s[0]) {
            lemma_collapse_shape(rest, false);
            crate::text::lemma_ascii_lower_is_lower(s[0]);
            let c = collapse(s, after_sep);
            assert(c == seq![ascii_lower(s[0])] + collapse(rest, false));
            assert forall|i: int| 0 <= i < c.len() implies is_slug_char(#[trigger] c[i]) by {
                if i > 0 {
                    assert(c[i] == collapse(rest, false)[i - 1]);
                }
            }
            assert forall|i: int| 0 <= i < c.len() - 1 implies !(#[trigger] c[i] == '_' && c[i
                + 1] == '_') by {
                if i > 0 {
                    assert(c[i] == collapse(rest, false)[i - 1]);
                    assert(c[i + 1] == collapse(rest, false)[i]);
                }
            }
        } else if !after_sep {
            lemma_collapse_shape(rest, true);
            let c = collapse(s, after_sep);
            let r = collapse(rest, true);
            assert(c == seq!['_'] + r);
            assert forall|i: int| 0 <= i < c.len() implies is_slug_char(#[trigger] c[i]) by {
                if i > 0 {
                    assert(c[i] == r[i - 1]);
                }
            }
            assert forall|i: int| 0 <= i < c.len() - 1 implies !(#[trigger] c[i] == '_' && c[i
                + 1] == '_') by {
                if i > 0 {
                    assert(c[i] == r[i - 1]);
                    assert(c[i + 1] == r[i]);
                } else {
                    assert(c[1] == r[0]);
                }
            }
        } else {
            lemma_collapse_shape(rest, true);
        }
    }
}

proof fn lemma_strip_shape(s: Seq<char>)
    requires
        forall|i: int| 0 <= i < s.len() ==> is_slug_char(#[trigger] s[i]),
        s.len() > 0 ==> s[0] != '_',
        forall|i: int| 0 <= i < s.len() - 1 ==> !(#[trigger] s[i] == '_' && s[i + 1] == '_'),
    ensures
        strip_trailing_separators(s).len() > 0 ==> is_slug(strip_trailing_separators(s)),
    decreases s.len(),
{
    if s.len() > 0 && s.last() == '_' {
        let t = s.drop_last();
        assert forall|i: int| 0 <= i < t.len() - 1 implies !(#[trigger] t[i] == '_' && t[i + 1]
            == '_') by {
            assert(t[i] == s[i] && t[i + 1] == s[i + 1]);
        }
        lemma_strip_shape(t);
    }
}

/// Every slug has the shape `is_slug`: tool names built from it are plain
/// `[a-z0-9_]` identifiers.
pub proof fn lemma_slug_shape(name: Seq<char>)
    ensures
        is_slug(slug_of(name)),
{
    let c = collapse(transliterate_all(name), true);
    lemma_collapse_shape(transliterate_all(name), true);
    lemma_strip_shape(c);
    let f = fallback_slug();
    assert(is_slug(f)) by {
        assert forall|i: int| 0 <= i < f.len() implies is_slug_char(#[trigger] f[i]) by {}
    }
}

proof fn lemma_transliterate_slug_chars(s: Seq<char>)
    requires
        forall|i: int| 0 <= i < s.len() ==> is_slug_char(#[trigger] s[i]),
    ensures
        transliterate_all(s) == s,
    decreases s.len(),
{
    if s.len() > 0 {
        assert(is_slug_char(s[0]));
        let t = s.drop_first();
        assert forall|i: int| 0 <= i < t.len() implies is_slug_char(#[trigger] t[i]) by {
            assert(t[i] == s[i + 1]);
        }
        lemma_transliterate_slug_chars(t);
        assert(seq![s[0]] + t =~= s);
    } else {
        assert(s =~= seq![]);
    }
}

proof fn lemma_collapse_slug_chars(s: Seq<char>, after_sep: bool)
    requires
        forall|i: int| 0 <= i < s.len() ==> is_slug_char(#[trigger] s[i]),
        after_sep && s.len() > 0 ==> s[0] != '_',
        forall|i: int| 0 <= i < s.len() - 1 ==> !(#[trigger] s[i] == '_' && s[i + 1] == '_'),
    ensures
        collapse(s, after_sep) == s,
    decreases s.len(),
{
    if s.len() > 0 {
        let t = s.drop_first();
        assert(is_slug_char(s[0]));
        assert forall|i: int| 0 <= i < t.len() implies is_slug_char(#[trigger] t[i]) by {
            assert(t[i] == s[i + 1]);
        }
        assert forall|i: int| 0 <= i < t.len() - 1 implies !(#[trigger] t[i] == '_' && t[i + 1]
            == '_') by {
            assert(t[i] == s[i + 1] && t[i + 1] == s[i + 2]);
        }
        if s[0] == '_' {
            if t.len() > 0 {
                assert(!(s[0] == '_' && s[1] == '_'));
                assert(t[0] == s[1]);
            }
            lemma_collapse_slug_chars(t, true);
        } else {
            lemma_collapse_slug_chars(t, false);
        }
        assert(seq![s[0]] + t =~= s);
    } else {
        assert(s =~= seq![]);
    }
}

/// Slugifying a slug changes nothing: `slugify(slugify(x)) == slugify(x)`.
pub proof fn lemma_slug_idempotent(name: Seq<char>)
    ensures
        slug_of(slug_of(name)) == slug_of(name),
{
    let s = slug_of(name);
    lemma_slug_shape(name);
    lemma_transliterate_slug_chars(s);
    lemma_collapse_slug_chars(s, true);
    assert(strip_trailing_separators(s) == s);
}


proof fn lemma_transliterate_all_concat(x: Seq<char>, y: Seq<char>)
    ensures
        transliterate_all(x + y) == transliterate_all(x) + transliterate_all(y),
    decreases x.len(),
{
    if x.len() == 0 {
        assert(x + y =~= y);
        assert(transliterate_all(x) =~= seq![]);
        assert(seq![] + transliterate_all(y) =~= transliterate_all(y));
    } else {
        lemma_transliterate_all_concat(x.drop_first(), y);
        assert((x + y).drop_first() =~= x.drop_first() + y);
        assert((x + y)[0] == x[0]);
        assert(transliterate_all(x + y) =~= transliterate_all(x) + transliterate_all(y));
    }
}

proof fn lemma_spelled_out(a: Seq<char>, b: Seq<char>, c: char, spelled: Seq<char>)
    requires
        transliterate_all(seq![c]) == transliterate_all(spelled),
    ensures
        slug_of(a + seq![c] + b) == slug_of(a + spelled + b),
{
    lemma_transliterate_all_concat(a, seq![c]);
    lemma_transliterate_all_concat(a + seq![c], b);
    lemma_transliterate_all_concat(a, spelled);
    lemma_transliterate_all_concat(a + spelled, b);
    assert(transliterate_all(a + seq![c] + b) == transliterate_all(a + spelled + b));
}

/// Umlauts and `ß` are spelled out, never dropped or treated as
/// separators: wherever `ä` stands in a name, the slug is the one of the
/// name with `ae` there; likewise `ö`/`oe`, `ü`/`ue`, `Ä`/`Ae`, `Ö`/`Oe`,
/// `Ü`/`Ue` and `ß`/`ss`.
pub proof fn lemma_umlauts_spelled_out(a: Seq<char>, b: Seq<char>)
    ensures
        slug_of(a + seq!['ä'] + b) == slug_of(a + seq!['a', 'e'] + b),
        slug_of(a + seq!['ö'] + b) == slug_of(a + seq!['o', 'e'] + b),
        slug_of(a + seq!['ü'] + b) == slug_of(a + seq!['u', 'e'] + b),
        slug_of(a + seq!['Ä'] + b) == slug_of(a + seq!['A', 'e'] + b),
        slug_of(a + seq!['Ö'] + b) == slug_of(a + seq!['O', 'e'] + b),
        slug_of(a + seq!['Ü'] + b) == slug_of(a + seq!['U', 'e'] + b),
        slug_of(a + seq!['ß'] + b) == slug_of(a + seq!['s', 's'] + b),
{
    reveal_with_fuel(transliterate_all, 3);
    assert(seq!['a', 'e'].drop_first() =~= seq!['e']);
    assert(seq!['o', 'e'].drop_first() =~= seq!['e']);
    assert(seq!['u', 'e'].drop_first() =~= seq!['e']);
    assert(seq!['A', 'e'].drop_first() =~= seq!['e']);
    assert(seq!['O', 'e'].drop_first() =~= seq!['e']);
    assert(seq!['U', 'e'].drop_first() =~= seq!['e']);
    assert(seq!['s', 's'].drop_first() =~= seq!['s']);
    assert(seq!['e'].drop_first() =~= Seq::<char>::empty());
    assert(seq!['s'].drop_first() =~= Seq::<char>::empty());
    assert(seq!['ä'].drop_first() =~= Seq::<char>::empty());
    assert(seq!['ö'].drop_first() =~= Seq::<char>::empty());
    assert(seq!['ü'].drop_first() =~= Seq::<char>::empty());
    assert(seq!['Ä'].drop_first() =~= Seq::<char>::empty());
    assert(seq!['Ö'].drop_first() =~= Seq::<char>::empty());
    assert(seq!['Ü'].drop_first() =~= Seq::<char>::empty());
    assert(seq!['ß'].drop_first() =~= Seq::<char>::empty());
    assert(transliterate_all(seq!['ä']) =~= transliterate_all(seq!['a', 'e']));
    assert(transliterate_all(seq!['ö']) =~= transliterate_all(seq!['o', 'e']));
    assert(transliterate_all(seq!['ü']) =~= transliterate_all(seq!['u', 'e']));
    assert(transliterate_all(seq!['Ä']) =~= transliterate_all(seq!['A', 'e']));
    assert(transliterate_all(seq!['Ö']) =~= transliterate_all(seq!['O', 'e']));
    assert(transliterate_all(seq!['Ü']) =~= transliterate_all(seq!['U', 'e']));
    assert(transliterate_all(seq!['ß']) =~= transliterate_all(seq!['s', 's']));
    lemma_spelled_out(a, b, 'ä', seq!['a', 'e']);
    lemma_spelled_out(a, b, 'ö', seq!['o', 'e']);
    lemma_spelled_out(a, b, 'ü', seq!['u', 'e']);
    lemma_spelled_out(a, b, 'Ä', seq!['A', 'e']);
    lemma_spelled_out(a, b, 'Ö', seq!['O', 'e']);
    lemma_spelled_out(a, b, 'Ü', seq!['U', 'e']);
    lemma_spelled_out(a, b, 'ß', seq!['s', 's']);
}

} // verus!
