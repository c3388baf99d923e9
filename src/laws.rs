//! Laws of shortening, registration, collection and substitution, proved over
//! the specifications the operations meet.

use vstd::prelude::*;

use crate::collect::collected;
use crate::leaf::{AnyNameable, LeafView};
use crate::render::substituted_all;
use crate::name::NameView;
use crate::registry::{collision_events, empty_separator, registered, truncated, Shortener};
use crate::substitute::{expand_breaks, occurs_at, reindented, replace_literal};

verus! {

/// Shortening is a function of the text alone: recording the same text twice
/// leaves the cache as recording it once, reports no collision the second
/// time, and leaves every other fragment's entry as it was.
pub proof fn shortening_is_deterministic(
    s: Shortener,
    x: Seq<char>,
    originals: Map<Seq<char>, Seq<char>>,
)
    ensures
        ({
            let f = s.fragment_of(x);
            let once = originals.insert(f, x);
            &&& once.insert(f, x) == once
            &&& collision_events(once, f, x).len() == 0
            &&& forall|k: Seq<char>|
                k != f ==> (#[trigger] once.contains_key(k) == originals.contains_key(k)) && (
                originals.contains_key(k) ==> once[k] == originals[k])
        }),
{
    let f = s.fragment_of(x);
    let once = originals.insert(f, x);
    assert(once.insert(f, x) =~= once);
}

/// The fragment is the tag, a bar and the first `length` characters; where
/// nothing is kept, the tag and the sentinel bar.
pub proof fn truncation_is_correct(s: Shortener, x: Seq<char>)
    ensures
        x.len() > 0 && s.length > 0 ==> s.fragment_of(x) == s.prefix@ + seq!['|'] + x.take(
            if x.len() < s.length {
                x.len() as int
            } else {
                s.length as int
            },
        ),
        x.len() == 0 || s.length == 0 ==> s.fragment_of(x) == s.prefix@ + seq![empty_separator()],
{
    if x.len() <= s.length {
        assert(x.take(x.len() as int) =~= x);
    }
    if x.len() == 0 || s.length == 0 {
        assert(truncated(x, s.length as nat) =~= Seq::<char>::empty());
        assert(s.fragment_of(x) =~= s.prefix@ + seq![empty_separator()]);
    }
}

/// Two different texts that share their first `length` characters shorten to
/// one fragment, and recording the second after the first reports a
/// collision; recording the first again reports none.
pub proof fn collisions_are_detected(
    s: Shortener,
    x: Seq<char>,
    y: Seq<char>,
    originals: Map<Seq<char>, Seq<char>>,
)
    requires
        x != y,
        s.length <= x.len(),
        s.length <= y.len(),
        x.take(s.length as int) == y.take(s.length as int),
    ensures
        s.fragment_of(x) == s.fragment_of(y),
        collision_events(originals.insert(s.fragment_of(x), x), s.fragment_of(y), y).len() == 1,
        collision_events(originals.insert(s.fragment_of(x), x), s.fragment_of(x), x).len() == 0,
{
    if x.len() == s.length {
        assert(x.take(s.length as int) =~= x);
    }
    if y.len() == s.length {
        assert(y.take(s.length as int) =~= y);
    }
    assert(truncated(x, s.length as nat) == truncated(y, s.length as nat));
}

/// Registration only goes up in specificity: the key is registered after it,
/// the registered kind is at least as specific as before and as the one asked
/// for, and a request no more specific than the registered name changes
/// nothing.
pub proof fn registration_only_upgrades(
    names: Map<Seq<char>, NameView>,
    key: Seq<char>,
    name: NameView,
)
    ensures
        registered(names, key, name).contains_key(key),
        registered(names, key, name)[key].kind.rank() >= name.kind.rank(),
        names.contains_key(key) ==> registered(names, key, name)[key].kind.rank()
            >= names[key].kind.rank(),
        names.contains_key(key) && name.kind.rank() <= names[key].kind.rank() ==> registered(
            names,
            key,
            name,
        ) == names,
        forall|k: Seq<char>|
            k != key ==> #[trigger] registered(names, key, name).contains_key(k)
                == names.contains_key(k),
{
}

/// The registry after asking for each name in turn under one key.
pub open spec fn registered_in_turn(
    names: Map<Seq<char>, NameView>,
    key: Seq<char>,
    requests: Seq<NameView>,
) -> Map<Seq<char>, NameView>
    decreases requests.len(),
{
    if requests.len() == 0 {
        names
    } else {
        registered_in_turn(registered(names, key, requests[0]), key, requests.drop_first())
    }
}

/// Names asked for in strictly increasing specificity each replace the one
/// before, so the last one is what is registered.
pub proof fn increasing_specificity_keeps_the_last(
    names: Map<Seq<char>, NameView>,
    key: Seq<char>,
    requests: Seq<NameView>,
)
    requires
        requests.len() > 0,
        forall|i: int|
            0 < i < requests.len() ==> requests[i - 1].kind.rank() < #[trigger] requests[i].kind.rank(),
        names.contains_key(key) ==> names[key].kind.rank() < requests[0].kind.rank(),
    ensures
        registered_in_turn(names, key, requests).contains_key(key),
        registered_in_turn(names, key, requests)[key] == requests.last(),
    decreases requests.len(),
{
    let next = registered(names, key, requests[0]);
    assert(next[key] == requests[0]);
    assert(registered_in_turn(names, key, requests) == registered_in_turn(
        next,
        key,
        requests.drop_first(),
    ));
    if requests.len() == 1 {
        assert(requests.drop_first().len() == 0);
    } else {
        let rest = requests.drop_first();
        assert(rest[0] == requests[1]);
        assert forall|i: int| 0 < i < rest.len() implies rest[i - 1].kind.rank()
            < #[trigger] rest[i].kind.rank() by {
            assert(rest[i] == requests[i + 1]);
            assert(rest[i - 1] == requests[i]);
        }
        increasing_specificity_keeps_the_last(next, key, rest);
        assert(rest.last() == requests.last());
    }
}

proof fn no_occurrence_in_tail(t: Seq<char>, p: Seq<char>)
    requires
        t.len() > 0,
        forall|i: int| !occurs_at(t, i, p),
    ensures
        forall|i: int| !occurs_at(t.drop_first(), i, p),
{
    assert forall|i: int| !occurs_at(t.drop_first(), i, p) by {
        if occurs_at(t.drop_first(), i, p) {
            assert(t.subrange(i + 1, i + 1 + p.len()) =~= t.drop_first().subrange(i, i + p.len()));
            assert(occurs_at(t, i + 1, p));
        }
    }
}

/// Substituting a pattern that does not occur in a text leaves the text as it
/// was; so rendering text that holds no leaf's pattern again changes nothing.
pub proof fn substitution_without_occurrence_is_identity(t: Seq<char>, p: Seq<char>, r: Seq<char>)
    requires
        p.len() > 0,
        forall|i: int| !occurs_at(t, i, p),
    ensures
        replace_literal(t, p, r) == t,
    decreases t.len(),
{
    if t.len() >= p.len() {
        assert(!occurs_at(t, 0, p));
        assert(t.subrange(0, p.len() as int) =~= t.take(p.len() as int));
        no_occurrence_in_tail(t, p);
        substitution_without_occurrence_is_identity(t.drop_first(), p, r);
        assert(seq![t[0]] + t.drop_first() =~= t);
    }
}

proof fn kept_prefix_comes_from_text(t: Seq<char>, p: Seq<char>, r: Seq<char>, m: int)
    requires
        p.len() > 0,
        r.len() > 0,
        0 <= m <= replace_literal(t, p, r).len(),
        forall|j: int| 0 <= j < m ==> !r.contains(#[trigger] replace_literal(t, p, r)[j]),
    ensures
        m <= t.len(),
        replace_literal(t, p, r).take(m) == t.take(m),
    decreases t.len(),
{
    let out = replace_literal(t, p, r);
    if m == 0 {
        assert(out.take(0) =~= t.take(0));
    } else if t.len() < p.len() {
    } else if t.take(p.len() as int) == p {
        assert(out[0] == r[0]);
        assert(r.contains(out[0]));
    } else {
        let tail = replace_literal(t.drop_first(), p, r);
        assert(out == seq![t[0]] + tail);
        assert forall|j: int| 0 <= j < m - 1 implies !r.contains(#[trigger] tail[j]) by {
            assert(out[j + 1] == tail[j]);
        }
        kept_prefix_comes_from_text(t.drop_first(), p, r, m - 1);
        assert(out.take(m) =~= seq![t[0]] + tail.take(m - 1));
        assert(t.take(m) =~= seq![t[0]] + t.drop_first().take(m - 1));
    }
}

/// After replacing a pattern by a non-empty text that shares no character
/// with it, the pattern occurs nowhere in the result: no leaf's raw text is
/// left where its name was put.
pub proof fn replaced_pattern_does_not_remain(t: Seq<char>, p: Seq<char>, r: Seq<char>)
    requires
        p.len() > 0,
        r.len() > 0,
        forall|j: int| 0 <= j < p.len() ==> !r.contains(#[trigger] p[j]),
    ensures
        forall|i: int| !occurs_at(replace_literal(t, p, r), i, p),
    decreases t.len(),
{
    let out = replace_literal(t, p, r);
    assert forall|i: int| !occurs_at(out, i, p) by {
        if occurs_at(out, i, p) {
            assert(out.subrange(i, i + p.len())[0] == p[0]);
            assert(out[i] == p[0]);
            if t.len() < p.len() {
                assert(out.len() < p.len());
            } else if t.take(p.len() as int) == p {
                let tail = replace_literal(t.skip(p.len() as int), p, r);
                assert(out == r + tail);
                if i < r.len() {
                    assert(out[i] == r[i]);
                    assert(r.contains(p[0]));
                } else {
                    replaced_pattern_does_not_remain(t.skip(p.len() as int), p, r);
                    assert(tail.subrange(i - r.len(), i - r.len() + p.len()) =~= out.subrange(
                        i,
                        i + p.len(),
                    ));
                    assert(occurs_at(tail, i - r.len(), p));
                }
            } else {
                let tail = replace_literal(t.drop_first(), p, r);
                assert(out == seq![t[0]] + tail);
                if i > 0 {
                    replaced_pattern_does_not_remain(t.drop_first(), p, r);
                    assert(tail.subrange(i - 1, i - 1 + p.len()) =~= out.subrange(
                        i,
                        i + p.len(),
                    ));
                    assert(occurs_at(tail, i - 1, p));
                } else {
                    assert forall|j: int| 0 <= j < p.len() implies !r.contains(
                        #[trigger] out[j],
                    ) by {
                        assert(out[j] == out.subrange(0, p.len() as int)[j]);
                    }
                    kept_prefix_comes_from_text(t, p, r, p.len() as int);
                    assert(out.take(p.len() as int) =~= out.subrange(0, p.len() as int));
                }
            }
        }
    }
}

/// Rendering text again with no leaves, or in compact mode with leaves none
/// of whose texts occurs in it, gives the text back unchanged.
pub proof fn rendering_settled_text_is_identity(
    t: Seq<char>,
    leaves: Seq<LeafView>,
    reps: Seq<Seq<char>>,
)
    requires
        forall|k: int|
            0 <= k < leaves.len() ==> #[trigger] leaves[k].compact.len() > 0 && forall|i: int|
                !occurs_at(t, i, leaves[k].compact),
    ensures
        substituted_all(t, Seq::empty(), reps, true) == t,
        substituted_all(t, leaves, reps, false) == t,
    decreases leaves.len(),
{
    if leaves.len() > 0 && reps.len() > 0 {
        assert(leaves[0].compact.len() > 0);
        substitution_without_occurrence_is_identity(t, leaves[0].compact, reps[0]);
        let rest = leaves.drop_first();
        assert forall|k: int| 0 <= k < rest.len() implies #[trigger] rest[k].compact.len() > 0
            && forall|i: int| !occurs_at(t, i, rest[k].compact) by {
            assert(rest[k] == leaves[k + 1]);
        }
        rendering_settled_text_is_identity(t, rest, reps.drop_first());
    }
}

/// Collecting two runs of members one after the other gives the leaves of the
/// first run, then those of the second.
pub proof fn collection_concatenates(
    a: Seq<(bool, Seq<AnyNameable>)>,
    b: Seq<(bool, Seq<AnyNameable>)>,
)
    ensures
        collected(a + b) == collected(a) + collected(b),
    decreases b.len(),
{
    if b.len() == 0 {
        assert(a + b =~= a);
        assert(collected(a) + collected(b) =~= collected(a));
    } else {
        assert((a + b).drop_last() =~= a + b.drop_last());
        collection_concatenates(a, b.drop_last());
        assert(collected(a + b) =~= collected(a) + collected(b));
    }
}

/// A member marked skipped contributes no leaves, whatever leaves it holds:
/// collecting with it gives what collecting without it gives.
pub proof fn skipped_members_contribute_nothing(
    before: Seq<(bool, Seq<AnyNameable>)>,
    leaves: Seq<AnyNameable>,
    after: Seq<(bool, Seq<AnyNameable>)>,
)
    ensures
        collected(before + seq![(true, leaves)] + after) == collected(before + after),
{
    collection_concatenates(before + seq![(true, leaves)], after);
    collection_concatenates(before, after);
    assert((before + seq![(true, leaves)]).drop_last() =~= before);
    assert(collected(before + seq![(true, leaves)]) =~= collected(before));
}

proof fn expand_breaks_concatenates(a: Seq<char>, b: Seq<char>, x: Seq<char>)
    ensures
        expand_breaks(a + b, x) == expand_breaks(a, x) + expand_breaks(b, x),
    decreases b.len(),
{
    if b.len() == 0 {
        assert(a + b =~= a);
        assert(expand_breaks(a, x) + expand_breaks(b, x) =~= expand_breaks(a, x));
    } else {
        assert((a + b).drop_last() =~= a + b.drop_last());
        expand_breaks_concatenates(a, b.drop_last(), x);
        assert(expand_breaks(a + b, x) =~= expand_breaks(a, x) + expand_breaks(b, x));
    }
}

proof fn expand_breaks_of_one_line(a: Seq<char>, x: Seq<char>)
    requires
        !a.contains('\n'),
    ensures
        expand_breaks(a, x) == a,
    decreases a.len(),
{
    if a.len() > 0 {
        assert(!a.drop_last().contains('\n')) by {
            if a.drop_last().contains('\n') {
                let i = choose|i: int| 0 <= i < a.drop_last().len() && a.drop_last()[i] == '\n';
                assert(a[i] == '\n');
            }
        }
        expand_breaks_of_one_line(a.drop_last(), x);
        assert(a.drop_last() + seq![a.last()] =~= a);
    }
}

/// Re-indenting puts the indentation in front of every line: a single line
/// gets it once, and a line break splits the result into the two parts, each
/// indented.
pub proof fn reindentation_indents_every_line(a: Seq<char>, b: Seq<char>, ws: Seq<char>)
    ensures
        !a.contains('\n') ==> reindented(a, ws) == ws + a,
        reindented(a + seq!['\n'] + b, ws) == reindented(a, ws) + seq!['\n'] + reindented(b, ws),
{
    if !a.contains('\n') {
        expand_breaks_of_one_line(a, seq!['\n'] + ws);
    }
    let x = seq!['\n'] + ws;
    expand_breaks_concatenates(a + seq!['\n'], b, x);
    expand_breaks_concatenates(a, seq!['\n'], x);
    assert(seq!['\n'].drop_last() =~= Seq::<char>::empty());
    assert(seq!['\n'].last() == '\n');
    assert(expand_breaks(Seq::<char>::empty(), x) =~= Seq::<char>::empty());
    assert(expand_breaks(seq!['\n'], x) =~= x);
    assert(reindented(a + seq!['\n'] + b, ws) =~= reindented(a, ws) + seq!['\n'] + reindented(
        b,
        ws,
    ));
}

} // verus!
