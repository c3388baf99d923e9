//! Text substitution: literal replacement for compact debug text, and
//! indentation-aware replacement of pattern matches for pretty debug text.

use vstd::prelude::*;

use crate::text::{chars_of, push_char, string_of};

verus! {

/// What `char::is_whitespace` accepts: the characters with the Unicode
/// `White_Space` property.
pub open spec fn is_white_space(c: char) -> bool {
    ('\u{9}' <= c <= '\u{d}') || c == ' ' || c == '\u{85}' || c == '\u{a0}' || c == '\u{1680}'
        || ('\u{2000}' <= c <= '\u{200a}') || c == '\u{2028}' || c == '\u{2029}' || c
        == '\u{202f}' || c == '\u{205f}' || c == '\u{3000}'
}

/// The longest prefix of `s` made of white space.
pub open spec fn leading_white(s: Seq<char>) -> Seq<char>
    decreases s.len(),
{
    if s.len() > 0 && is_white_space(s[0]) {
        seq![s[0]] + leading_white(s.drop_first())
    } else {
        Seq::empty()
    }
}

/// `t` with every occurrence of `p` replaced by `r`, scanning left to right
/// without overlap; an empty `p` matches before every character and at the end.
pub open spec fn replace_literal(t: Seq<char>, p: Seq<char>, r: Seq<char>) -> Seq<char>
    decreases t.len(),
{
    if p.len() == 0 {
        if t.len() == 0 {
            r
        } else {
            r + seq![t[0]] + replace_literal(t.drop_first(), p, r)
        }
    } else if t.len() < p.len() {
        t
    } else if t.take(p.len() as int) == p {
        r + replace_literal(t.skip(p.len() as int), p, r)
    } else {
        seq![t[0]] + replace_literal(t.drop_first(), p, r)
    }
}

/// `t` with every line break replaced by `r`.
pub open spec fn expand_breaks(t: Seq<char>, r: Seq<char>) -> Seq<char>
    decreases t.len(),
{
    if t.len() == 0 {
        Seq::empty()
    } else {
        expand_breaks(t.drop_last(), r) + if t.last() == '\n' {
            r
        } else {
            seq![t.last()]
        }
    }
}

/// `r` with `ws` put in front of each of its lines.
pub open spec fn reindented(r: Seq<char>, ws: Seq<char>) -> Seq<char> {
    ws + expand_breaks(r, seq!['\n'] + ws)
}

/// Whether `t[i..i + p.len()]` is `p`.
pub open spec fn occurs_at(t: Seq<char>, i: int, p: Seq<char>) -> bool {
    0 <= i && i + p.len() <= t.len() && t.subrange(i, i + p.len()) == p
}

fn matches_at(t: &Vec<char>, i: usize, p: &Vec<char>) -> (r: bool)
    requires
        i <= t.len(),
    ensures
        r == occurs_at(t@, i as int, p@),
{
    if p.len() > t.len() - i {
        return false;
    }
    let mut k: usize = 0;
    while k < p.len()
        invariant
            i + p.len() <= t.len(),
            k <= p.len(),
            forall|j: int| 0 <= j < k ==> t@[i + j] == p@[j],
        decreases p.len() - k,
    {
        if t[i + k] != p[k] {
            assert(t@.subrange(i as int, i + p.len())[k as int] != p@[k as int]);
            return false;
        }
        k = k + 1;
    }
    assert(t@.subrange(i as int, i + p.len()) =~= p@);
    true
}

fn append_chars(out: &mut String, s: &Vec<char>)
    ensures
        final(out)@ == old(out)@ + s@,
{
    for i in 0..s.len()
        invariant
            out@ == old(out)@ + s@.take(i as int),
    {
        proof {
            assert(s@.take(i + 1) =~= s@.take(i as int).push(s@[i as int]));
        }
        push_char(out, s[i]);
    }
    assert(s@.take(s@.len() as int) =~= s@);
}

/// Every occurrence of `pattern` in `text` replaced by `replacement`, as
/// `str::replace` does it.
pub fn replace_all_literal(text: &str, pattern: &str, replacement: &str) -> (r: String)
    ensures
        r@ == replace_literal(text@, pattern@, replacement@),
{
    let t = chars_of(text);
    let p = chars_of(pattern);
    let rep = chars_of(replacement);
    let n = t.len();
    let mut out = String::new();
    let mut i: usize = 0;
    assert(t@.skip(0) =~= t@);
    assert(out@ + replace_literal(t@, p@, rep@) =~= replace_literal(t@, p@, rep@));
    while i < n
        invariant
            n == t@.len(),
            i <= n,
            out@ + replace_literal(t@.skip(i as int), p@, rep@) == replace_literal(t@, p@, rep@),
        decreases n - i,
    {
        let rest = Ghost(t@.skip(i as int));
        if p.len() > 0 && matches_at(&t, i, &p) {
            proof {
                assert(rest@.take(p@.len() as int) =~= t@.subrange(i as int, i + p@.len()));
                assert(rest@.skip(p@.len() as int) =~= t@.skip(i + p@.len()));
            }
            append_chars(&mut out, &rep);
            i = i + p.len();
        } else {
            proof {
                assert(rest@.drop_first() =~= t@.skip(i + 1));
                if p@.len() > 0 && rest@.len() >= p@.len() {
                    assert(rest@.take(p@.len() as int) =~= t@.subrange(i as int, i + p@.len()));
                }
            }
            if p.len() == 0 {
                append_chars(&mut out, &rep);
            }
            push_char(&mut out, t[i]);
            i = i + 1;
        }
    }
    proof {
        assert(t@.skip(n as int) =~= Seq::<char>::empty());
    }
    if p.len() == 0 {
        append_chars(&mut out, &rep);
    }
    assert(t@ == text@);
    out
}


fn expand_breaks_into(out: &mut String, t: &Vec<char>, r: &Vec<char>)
    ensures
        final(out)@ == old(out)@ + expand_breaks(t@, r@),
{
    for i in 0..t.len()
        invariant
            out@ == old(out)@ + expand_breaks(t@.take(i as int), r@),
    {
        proof {
            let next = t@.take(i + 1);
            assert(next.drop_last() =~= t@.take(i as int));
            assert(next.last() == t@[i as int]);
        }
        if t[i] == '\n' {
            append_chars(out, r);
        } else {
            push_char(out, t[i]);
        }
        proof {
            assert(out@ =~= old(out)@ + expand_breaks(t@.take(i + 1), r@));
        }
    }
    assert(t@.take(t@.len() as int) =~= t@);
}

/// `replacement` with `indent` put in front of each of its lines.
pub fn reindent(replacement: &str, indent: &str) -> (r: String)
    ensures
        r@ == reindented(replacement@, indent@),
{
    let rep = chars_of(replacement);
    let ws = chars_of(indent);
    let mut brk: Vec<char> = Vec::new();
    brk.push('\n');
    append_vec(&mut brk, &ws);
    let mut out = String::new();
    append_chars(&mut out, &ws);
    expand_breaks_into(&mut out, &rep, &brk);
    assert(out@ =~= reindented(replacement@, indent@));
    out
}

fn append_vec(v: &mut Vec<char>, s: &Vec<char>)
    ensures
        final(v)@ == old(v)@ + s@,
{
    for i in 0..s.len()
        invariant
            v@ == old(v)@ + s@.take(i as int),
    {
        proof {
            assert(s@.take(i + 1) =~= s@.take(i as int).push(s@[i as int]));
        }
        v.push(s[i]);
    }
    assert(s@.take(s@.len() as int) =~= s@);
}

/// What `regex_syntax::is_meta_character` accepts.
pub open spec fn is_regex_meta(c: char) -> bool {
    c == '\\' || c == '.' || c == '+' || c == '*' || c == '?' || c == '(' || c == ')' || c == '|'
        || c == '[' || c == ']' || c == '{' || c == '}' || c == '^' || c == '$' || c == '#' || c
        == '&' || c == '-' || c == '~'
}

/// `s` with a backslash put in front of each regex meta character.
pub open spec fn regex_escaped(s: Seq<char>) -> Seq<char>
    decreases s.len(),
{
    if s.len() == 0 {
        Seq::empty()
    } else {
        regex_escaped(s.drop_last()) + if is_regex_meta(s.last()) {
            seq!['\\', s.last()]
        } else {
            seq![s.last()]
        }
    }
}

/// Relies on `regex::escape`: a backslash before each meta character, every
/// other character kept.
#[verifier::external_body]
fn escape_regex(s: &str) -> (r: String)
    ensures
        r@ == regex_escaped(s@),
{
    regex::escape(s)
}

/// The pattern that finds a pretty debug text at any indentation: each of its
/// lines, escaped, after any number of spaces.
pub open spec fn pretty_pattern_of(pretty: Seq<char>) -> Seq<char> {
    seq![' ', '*'] + expand_breaks(regex_escaped(pretty), seq!['\n', ' ', '*'])
}

/// The regular expression that finds `pretty_debug` whatever the indentation
/// of its lines.
pub fn pretty_pattern(pretty_debug: &str) -> (r: String)
    ensures
        r@ == pretty_pattern_of(pretty_debug@),
{
    let escaped = chars_of(escape_regex(pretty_debug).as_str());
    let mut brk: Vec<char> = Vec::new();
    brk.push('\n');
    brk.push(' ');
    brk.push('*');
    let mut out = String::new();
    push_char(&mut out, ' ');
    push_char(&mut out, '*');
    expand_breaks_into(&mut out, &escaped, &brk);
    assert(brk@ =~= seq!['\n', ' ', '*']);
    assert(out@ =~= pretty_pattern_of(pretty_debug@));
    out
}

/// The character spans `[start, end)` at which a regular expression matches a
/// text, in the order found, or `None` where the pattern does not compile.
pub uninterp spec fn regex_match_spans(pattern: Seq<char>, haystack: Seq<char>) -> Option<
    Seq<(usize, usize)>,
>;

/// Relies on `regex::Regex::new` and `Regex::find_iter`: compiles `pattern` and
/// lists the successive non-overlapping matches in `haystack`, as character
/// positions.
#[verifier::external_body]
pub(crate) fn find_matches(pattern: &str, haystack: &str) -> (r: Option<Vec<(usize, usize)>>)
    ensures
        r matches Some(v) ==> regex_match_spans(pattern@, haystack@) == Some(v@),
        r is None ==> regex_match_spans(pattern@, haystack@) is None,
{
    let re = regex::Regex::new(pattern).ok()?;
    let at = |b: usize| haystack[..b].chars().count();
    Some(re.find_iter(haystack).map(|m| (at(m.start()), at(m.end()))).collect())
}

/// Whether the spans lie within a text of length `n`, each after the one before.
pub open spec fn spans_in_order(spans: Seq<(usize, usize)>, n: nat) -> bool {
    forall|k: int|
        0 <= k < spans.len() ==> {
            &&& #[trigger] spans[k].0 <= spans[k].1
            &&& spans[k].1 <= n
            &&& (k > 0 ==> spans[k - 1].1 <= spans[k].0)
        }
}

/// `t` from position `from` on, with each span replaced by `r` indented as
/// the white space that opens the matched text.
pub open spec fn splice(t: Seq<char>, spans: Seq<(usize, usize)>, r: Seq<char>, from: int) -> Seq<
    char,
>
    decreases spans.len(),
{
    if spans.len() == 0 {
        t.subrange(from, t.len() as int)
    } else {
        let (s, e) = spans[0];
        t.subrange(from, s as int) + reindented(r, leading_white(t.subrange(s as int, e as int)))
            + splice(t, spans.drop_first(), r, e as int)
    }
}

/// The text that replacing each span of `t` by `r` gives, or `t` itself where
/// the spans are out of order or out of bounds.
pub open spec fn apply_spans(t: Seq<char>, spans: Seq<(usize, usize)>, r: Seq<char>) -> Seq<char> {
    if spans_in_order(spans, t.len()) {
        splice(t, spans, r, 0)
    } else {
        t
    }
}

/// What `char::is_whitespace` answers.
pub fn white_space(c: char) -> (r: bool)
    ensures
        r == is_white_space(c),
{
    ('\u{9}' <= c && c <= '\u{d}') || c == ' ' || c == '\u{85}' || c == '\u{a0}' || c
        == '\u{1680}' || ('\u{2000}' <= c && c <= '\u{200a}') || c == '\u{2028}' || c == '\u{2029}'
        || c == '\u{202f}' || c == '\u{205f}' || c == '\u{3000}'
}

/// The white space that opens `t[s..e]`, as characters.
fn leading_white_of(t: &Vec<char>, s: usize, e: usize) -> (r: Vec<char>)
    requires
        s <= e <= t.len(),
    ensures
        r@ == leading_white(t@.subrange(s as int, e as int)),
    decreases e - s,
{
    if s < e && white_space(t[s]) {
        let rest = leading_white_of(t, s + 1, e);
        let mut r: Vec<char> = Vec::new();
        r.push(t[s]);
        append_vec(&mut r, &rest);
        proof {
            let m = t@.subrange(s as int, e as int);
            assert(m.drop_first() =~= t@.subrange(s + 1, e as int));
            assert(r@ =~= leading_white(m));
        }
        r
    } else {
        Vec::new()
    }
}

fn spans_ok(spans: &Vec<(usize, usize)>, n: usize) -> (r: bool)
    ensures
        r == spans_in_order(spans@, n as nat),
{
    let mut k: usize = 0;
    while k < spans.len()
        invariant
            k <= spans.len(),
            forall|j: int|
                0 <= j < k ==> {
                    &&& #[trigger] spans@[j].0 <= spans@[j].1
                    &&& spans@[j].1 <= n
                    &&& (j > 0 ==> spans@[j - 1].1 <= spans@[j].0)
                },
        decreases spans.len() - k,
    {
        let (s, e) = spans[k];
        if !(s <= e && e <= n && (k == 0 || spans[k - 1].1 <= s)) {
            assert(!({
                &&& spans@[k as int].0 <= spans@[k as int].1
                &&& spans@[k as int].1 <= n
                &&& (k > 0 ==> spans@[k - 1].1 <= spans@[k as int].0)
            }));
            return false;
        }
        k = k + 1;
    }
    true
}

/// `text` with each span replaced by `replacement`, every line of which is
/// indented as the white space that opens the matched text; `text` unchanged
/// where the spans are out of order or out of bounds.
pub fn apply_matches(text: &str, spans: &Vec<(usize, usize)>, replacement: &str) -> (r: String)
    ensures
        r@ == apply_spans(text@, spans@, replacement@),
{
    let t = chars_of(text);
    let n = t.len();
    if !spans_ok(spans, n) {
        return string_of(&t);
    }
    let rep = chars_of(replacement);
    let mut out = String::new();
    let mut prev: usize = 0;
    let mut k: usize = 0;
    assert(spans@.skip(0) =~= spans@);
    assert(out@ + splice(t@, spans@, rep@, 0) =~= splice(t@, spans@, rep@, 0));
    while k < spans.len()
        invariant
            n == t@.len(),
            k <= spans.len(),
            spans_in_order(spans@, n as nat),
            rep@ == replacement@,
            prev <= n,
            k > 0 ==> prev == spans@[k - 1].1,
            k == 0 ==> prev == 0,
            out@ + splice(t@, spans@.skip(k as int), rep@, prev as int) == splice(
                t@,
                spans@,
                rep@,
                0,
            ),
        decreases spans.len() - k,
    {
        let (s, e) = spans[k];
        assert(spans@[k as int].0 <= spans@[k as int].1);
        proof {
            assert(spans@.skip(k as int)[0] == spans@[k as int]);
            assert(spans@.skip(k as int).drop_first() =~= spans@.skip(k + 1));
        }
        let ghost before = out@;
        let mut i: usize = prev;
        while i < s
            invariant
                prev <= i <= s <= n,
                n == t@.len(),
                out@ == before + t@.subrange(prev as int, i as int),
            decreases s - i,
        {
            push_char(&mut out, t[i]);
            i = i + 1;
            assert(out@ =~= before + t@.subrange(prev as int, i as int));
        }
        let ws = leading_white_of(&t, s, e);
        let piece = reindent(replacement, string_of(&ws).as_str());
        append_chars(&mut out, &chars_of(piece.as_str()));
        proof {
            assert(out@ + splice(t@, spans@.skip(k + 1), rep@, e as int) =~= before + splice(
                t@,
                spans@.skip(k as int),
                rep@,
                prev as int,
            ));
        }
        prev = e;
        k = k + 1;
    }
    let ghost before = out@;
    let mut i: usize = prev;
    while i < n
        invariant
            prev <= i <= n,
            n == t@.len(),
            out@ == before + t@.subrange(prev as int, i as int),
        decreases n - i,
    {
        push_char(&mut out, t[i]);
        i = i + 1;
        assert(out@ =~= before + t@.subrange(prev as int, i as int));
    }
    assert(spans@.skip(k as int) =~= Seq::<(usize, usize)>::empty());
    assert(t@ == text@);
    out
}

} // verus!
