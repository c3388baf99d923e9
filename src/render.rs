//! Rendering: the debug text of a value, with each of its leaves replaced by
//! how it shows.

use vstd::prelude::*;

use crate::leaf::{
    debug_compact, debug_pretty, get_name_string, shown_as, AnyNameable, AnyNameableBounds, LeafView,
};
use crate::name::NameView;
use crate::collect::fits;
use crate::registry::NameContext;
use crate::substitute::{
    apply_matches, apply_spans, find_matches, pretty_pattern, pretty_pattern_of,
    regex_match_spans, replace_all_literal, replace_literal,
};

verus! {

/// `text` with the leaf's pattern replaced by `rep`: its compact debug text
/// literally, or in pretty mode its pretty debug text at any indentation, with
/// `rep` indented as each match was. A pattern that does not compile leaves
/// `text` unchanged.
pub open spec fn substituted(text: Seq<char>, leaf: LeafView, rep: Seq<char>, pretty: bool) -> Seq<
    char,
> {
    if !pretty {
        replace_literal(text, leaf.compact, rep)
    } else {
        match regex_match_spans(pretty_pattern_of(leaf.pretty), text) {
            Some(spans) => apply_spans(text, spans, rep),
            None => text,
        }
    }
}

/// `text` after substituting each leaf by its replacement in turn, first leaf
/// first, as far as both lists go.
pub open spec fn substituted_all(
    text: Seq<char>,
    leaves: Seq<LeafView>,
    reps: Seq<Seq<char>>,
    pretty: bool,
) -> Seq<char>
    decreases leaves.len(),
{
    if leaves.len() == 0 || reps.len() == 0 {
        text
    } else {
        substituted_all(
            substituted(text, leaves[0], reps[0], pretty),
            leaves.drop_first(),
            reps.drop_first(),
            pretty,
        )
    }
}

/// The views of a list of leaves.
pub open spec fn leaf_views(leaves: Seq<AnyNameable>) -> Seq<LeafView> {
    leaves.map_values(|l: AnyNameable| l@)
}

/// How each leaf shows under the given registry, in compact or pretty mode.
pub open spec fn shown_all(names: Map<Seq<char>, NameView>, leaves: Seq<LeafView>, pretty: bool) -> Seq<
    Seq<char>,
> {
    leaves.map_values(|l: LeafView| shown_as(names, l, pretty))
}

/// `text` with the pattern of `leaf` replaced by `replacement`.
pub fn substitute(text: &str, leaf: &AnyNameable, replacement: &str, pretty: bool) -> (r: String)
    ensures
        r@ == substituted(text@, leaf@, replacement@, pretty),
{
    if !pretty {
        replace_all_literal(text, leaf.key(), replacement)
    } else {
        let pattern = pretty_pattern(leaf.pretty_text());
        match find_matches(pattern.as_str(), text) {
            Some(spans) => apply_matches(text, &spans, replacement),
            None => crate::text::string_of(&crate::text::chars_of(text)),
        }
    }
}

/// `text` with each leaf replaced by its replacement in turn.
pub fn substitute_all(
    text: &str,
    leaves: &Vec<AnyNameable>,
    replacements: &Vec<String>,
    pretty: bool,
) -> (r: String)
    ensures
        r@ == substituted_all(
            text@,
            leaf_views(leaves@),
            replacements@.map_values(|s: String| s@),
            pretty,
        ),
{
    let ghost lv = leaf_views(leaves@);
    let ghost rv = replacements@.map_values(|s: String| s@);
    let mut cur = crate::text::string_of(&crate::text::chars_of(text));
    let mut k: usize = 0;
    assert(lv.skip(0) =~= lv);
    assert(rv.skip(0) =~= rv);
    while k < leaves.len() && k < replacements.len()
        invariant
            k <= leaves.len(),
            k <= replacements.len(),
            lv == leaf_views(leaves@),
            rv == replacements@.map_values(|s: String| s@),
            substituted_all(cur@, lv.skip(k as int), rv.skip(k as int), pretty)
                == substituted_all(text@, lv, rv, pretty),
        decreases leaves.len() - k,
    {
        proof {
            assert(lv.skip(k as int).drop_first() =~= lv.skip(k + 1));
            assert(rv.skip(k as int).drop_first() =~= rv.skip(k + 1));
            assert(lv.skip(k as int)[0] == leaves@[k as int]@);
            assert(rv.skip(k as int)[0] == replacements@[k as int]@);
        }
        cur = substitute(cur.as_str(), &leaves[k], replacements[k].as_str(), pretty);
        k = k + 1;
    }
    proof {
        assert(lv.skip(k as int).len() == 0 || rv.skip(k as int).len() == 0);
    }
    cur
}

/// The debug text `debug` of a value, with each of its leaves replaced by how
/// it shows under the context's registry: the lower-level entry point that
/// takes the debug text and the collected leaves.
pub fn rename_text(ctx: &mut NameContext, debug: &str, leaves: &Vec<AnyNameable>, pretty: bool) -> (r:
    String)
    requires
        old(ctx).wf(),
    ensures
        r@ == substituted_all(
            debug@,
            leaf_views(leaves@),
            shown_all(old(ctx).names(), leaf_views(leaves@), pretty),
            pretty,
        ),
        final(ctx).wf(),
        final(ctx).names() == old(ctx).names(),
        final(ctx).next_serial() == old(ctx).next_serial(),
{
    let ghost names = ctx.names();
    let mut reps: Vec<String> = Vec::new();
    let mut k: usize = 0;
    while k < leaves.len()
        invariant
            k <= leaves.len(),
            ctx.wf(),
            ctx.names() == names,
            ctx.next_serial() == old(ctx).next_serial(),
            reps@.len() == k,
            forall|j: int| 0 <= j < k ==> #[trigger] reps@[j]@ == shown_as(names, leaves@[j]@, pretty),
        decreases leaves.len() - k,
    {
        let s = get_name_string(ctx, &leaves[k], pretty);
        reps.push(s);
        k = k + 1;
    }
    let r = substitute_all(debug, leaves, &reps, pretty);
    assert(reps@.map_values(|s: String| s@) =~= shown_all(names, leaf_views(leaves@), pretty));
    r
}

/// The debug text of `t`, compact or pretty, with each of the given leaves
/// replaced by how it shows under the context's registry.
pub fn rename<T: AnyNameableBounds>(
    ctx: &mut NameContext,
    t: &T,
    nameables: &Vec<AnyNameable>,
    pretty: bool,
) -> (r: String)
    requires
        old(ctx).wf(),
    ensures
        exists|d: Seq<char>|
            r@ == substituted_all(
                d,
                leaf_views(nameables@),
                shown_all(old(ctx).names(), leaf_views(nameables@), pretty),
                pretty,
            ),
        final(ctx).wf(),
        final(ctx).names() == old(ctx).names(),
        final(ctx).next_serial() == old(ctx).next_serial(),
{
    let debug = if pretty {
        debug_pretty(t)
    } else {
        debug_compact(t)
    };
    rename_text(ctx, debug.as_str(), nameables, pretty)
}

/// A value whose leaves can be collected, in the order of its structure.
pub trait Rename: core::fmt::Debug + Sized {
    /// What is known of the value's leaves (see `fits`); by default nothing.
    open spec fn shape(&self) -> Option<Seq<Option<LeafView>>> {
        None
    }

    /// The leaves inside the value: for a composite, those of its members in
    /// declaration order, skipped members left out.
    fn nameables(&self) -> (r: Vec<AnyNameable>)
        ensures
            fits(r@, self.shape()),
    ;

    /// The value wrapped for rendering.
    fn renamed(self) -> (r: Renamed<Self>)
        ensures
            r.0 == self,
    {
        Renamed(self)
    }
}

/// A value that renders with its leaves replaced by their names.
#[derive(Clone, Copy, Debug, PartialEq, Eq, Hash, PartialOrd, Ord)]
pub struct Renamed<T>(pub T);

impl<T: Rename> Renamed<T> {
    /// Wraps `value`.
    pub fn new(value: T) -> (r: Renamed<T>)
        ensures
            r.0 == value,
    {
        Renamed(value)
    }

    /// The wrapped value.
    pub fn inner(&self) -> (r: &T)
        ensures
            *r == self.0,
    {
        &self.0
    }

    /// The wrapped value taken out.
    pub fn into_inner(self) -> (r: T)
        ensures
            r == self.0,
    {
        self.0
    }

    /// The debug text of the wrapped value, compact or pretty, with its leaves
    /// replaced by how they show.
    pub fn render(&self, ctx: &mut NameContext, pretty: bool) -> (r: String)
        requires
            old(ctx).wf(),
        ensures
            exists|d: Seq<char>, leaves: Seq<AnyNameable>|
                fits(leaves, self.0.shape()) && r@ == #[trigger] substituted_all(
                    d,
                    leaf_views(leaves),
                    shown_all(old(ctx).names(), leaf_views(leaves), pretty),
                    pretty,
                ),
            final(ctx).wf(),
            final(ctx).names() == old(ctx).names(),
            final(ctx).next_serial() == old(ctx).next_serial(),
    {
        let leaves = self.0.nameables();
        let r = rename(ctx, &self.0, &leaves, pretty);
        assert(fits(leaves@, self.0.shape()));
        r
    }
}

impl<T: Rename> Rename for Renamed<T> {
    open spec fn shape(&self) -> Option<Seq<Option<LeafView>>> {
        self.0.shape()
    }

    fn nameables(&self) -> Vec<AnyNameable> {
        self.0.nameables()
    }
}

} // verus!
