//! Aliases: identifiers with a fixed-width short form, each of which can be
//! given an alias that always replaces the earlier one.

use vstd::prelude::*;

use crate::collect::{
    append_fitting, append_leaves, fits, joined, no_leaves, one_leaf, btree_map_items, btree_set_items, hash_map_items, hash_set_items,
};
use crate::leaf::{
    after_shortening, debug_compact, debug_pretty, shortening_events, AnyNameable, LeafView,
    CLOSE_BRACKET, OPEN_BRACKET,
};
use crate::registry::{alias_events, empty_separator, EventView, NameContext, Shortener};
use crate::name::in_brackets;
use crate::render::{leaf_views, substitute_all, substituted_all};
use crate::text::{chars_of, push_char, string_of};

verus! {

/// Relies on `core::any::TypeId::of`: the identity of the type `T`, written
/// out, which stands for it when type tags are checked for clashes.
#[verifier::external_body]
fn type_identity<T: ?Sized + 'static>() -> String {
    format!("{:?}", core::any::TypeId::of::<T>())
}

/// An identifier with a type tag and a short form of fixed width.
pub trait ShortId: core::fmt::Debug + Sized + 'static {
    /// The text that is shortened.
    fn to_short_string(&self) -> String;

    /// The type tag.
    fn prefix(&self) -> &'static str;

    /// How many characters of the text the short form keeps.
    fn length(&self) -> usize {
        4
    }

    /// The short form: the tag, a bar and the kept characters; it is recorded
    /// in the short-ID cache, and the tag is checked against those of other
    /// types.
    fn short(&self, ctx: &mut NameContext) -> (r: String)
        requires
            old(ctx).wf(),
        ensures
            final(ctx).wf(),
            exists|sh: Shortener, x: Seq<char>|
                r@ == #[trigger] sh.fragment_of(x) && final(ctx).originals()
                    == old(ctx).originals().insert(sh.fragment_of(x), x),
            final(ctx).names() == old(ctx).names(),
            final(ctx).aliases() == old(ctx).aliases(),
    {
        ctx.register_prefix(self.prefix(), type_identity::<Self>().as_str());
        let s = Shortener { length: self.length(), prefix: self.prefix() };
        s.shorten(ctx, self.to_short_string().as_str())
    }
}

/// Checks that the type tag of `t` is used by its type alone, and records it:
/// false where another type recorded it first.
pub fn assert_prefix_unique<T: ShortId>(ctx: &mut NameContext, t: &T) -> (r: bool)
    requires
        old(ctx).wf(),
    ensures
        final(ctx).wf(),
        exists|p: Seq<char>, o: Seq<char>|
            r == (!old(ctx).prefix_owners().contains_key(p) || old(ctx).prefix_owners()[p] == o)
                && final(ctx).prefix_owners() == #[trigger] old(ctx).prefix_owners().insert(p, o),
        final(ctx).names() == old(ctx).names(),
        final(ctx).aliases() == old(ctx).aliases(),
{
    ctx.register_prefix(t.prefix(), type_identity::<T>().as_str())
}

/// The alias text for `leaf` and the chosen alias `a`: the short form, a bar
/// and `a` where the short form is shown, else the tag, the sentinel bar and
/// `a`; all in the leaf's brackets.
pub open spec fn alias_text(leaf: LeafView, a: Seq<char>, show_short: bool) -> Seq<char> {
    let inner = match leaf.shortener {
        Some(s) => if show_short {
            s.fragment_of(leaf.display) + seq!['|'] + a
        } else {
            s.prefix@ + seq![empty_separator()] + a
        },
        None => if show_short {
            leaf.display + seq!['|'] + a
        } else {
            a
        },
    };
    leaf.open + inner + leaf.close
}

/// How a leaf shows under the given aliases: its alias, or else its default
/// text.
pub open spec fn alias_shown(aliases: Map<Seq<char>, Seq<char>>, leaf: LeafView, pretty: bool) -> Seq<
    char,
> {
    if aliases.contains_key(leaf.compact) {
        aliases[leaf.compact]
    } else {
        leaf.default_text(pretty)
    }
}

/// How each leaf shows under the given aliases.
pub open spec fn aliases_shown(
    aliases: Map<Seq<char>, Seq<char>>,
    leaves: Seq<LeafView>,
    pretty: bool,
) -> Seq<
    Seq<char>,
> {
    leaves.map_values(|l: LeafView| alias_shown(aliases, l, pretty))
}

/// What shortening for an alias reports: only the short form is shown.
pub open spec fn alias_shortening_events(
    originals: Map<Seq<char>, Seq<char>>,
    leaf: LeafView,
    show_short: bool,
) -> Seq<EventView> {
    if show_short {
        shortening_events(originals, leaf)
    } else {
        Seq::empty()
    }
}

impl NameContext {
    /// Sets the alias of `id` to its alias text for `alias`.
    pub fn alias_leaf(&mut self, id: &AnyNameable, alias: &str, show_short: bool)
        requires
            old(self).wf(),
        ensures
            final(self).wf(),
            final(self).aliases() == old(self).aliases().insert(
                id@.compact,
                alias_text(id@, alias@, show_short),
            ),
            final(self).log() == old(self).log() + alias_shortening_events(
                old(self).originals(),
                id@,
                show_short,
            ) + alias_events(old(self).aliases(), id@.compact, alias_text(id@, alias@, show_short)),
            final(self).originals() == if show_short {
                after_shortening(old(self).originals(), id@)
            } else {
                old(self).originals()
            },
            final(self).names() == old(self).names(),
    {
        let mut inner = match id.shortener_ref() {
            Some(s) => if show_short {
                let mut t = s.shorten(self, id.display_text());
                push_char(&mut t, '|');
                t
            } else {
                let mut t = string_of(&chars_of(s.prefix));
                push_char(&mut t, '\u{2016}');
                t
            },
            None => if show_short {
                let mut t = string_of(&chars_of(id.display_text()));
                push_char(&mut t, '|');
                t
            } else {
                String::new()
            },
        };
        inner.append(alias);
        let (open, close) = id.bracket_pair();
        let mut full = string_of(&chars_of(open));
        full.append(inner.as_str());
        full.append(close);
        assert(full@ =~= alias_text(id@, alias@, show_short));
        self.set_alias(id.key(), full);
    }
}

/// How `id` shows: its alias, or else its short form in brackets, which is
/// recorded in the short-ID cache.
pub fn get_alias_string(ctx: &mut NameContext, id: &AnyNameable, pretty: bool) -> (r: String)
    requires
        old(ctx).wf(),
    ensures
        r@ == alias_shown(old(ctx).aliases(), id@, pretty),
        final(ctx).wf(),
        final(ctx).aliases() == old(ctx).aliases(),
{
    match ctx.resolve_alias(id.key()) {
        Some(a) => a,
        None => match id.shortener_ref() {
            Some(s) => {
                let fragment = s.shorten(ctx, id.display_text());
                let (open, close) = id.bracket_pair();
                let mut out = string_of(&chars_of(open));
                out.append(fragment.as_str());
                out.append(close);
                assert(out@ =~= id@.default_text(pretty));
                out
            },
            None => if pretty {
                string_of(&chars_of(id.pretty_text()))
            } else {
                string_of(&chars_of(id.key()))
            },
        },
    }
}

/// The debug text `debug` of a value, with each of its leaves replaced by how
/// it shows under the context's aliases.
pub fn alias_text_of(ctx: &mut NameContext, debug: &str, leaves: &Vec<AnyNameable>, pretty: bool) -> (r:
    String)
    requires
        old(ctx).wf(),
    ensures
        r@ == substituted_all(
            debug@,
            leaf_views(leaves@),
            aliases_shown(old(ctx).aliases(), leaf_views(leaves@), pretty),
            pretty,
        ),
        final(ctx).wf(),
        final(ctx).aliases() == old(ctx).aliases(),
{
    let ghost aliases = ctx.aliases();
    let mut reps: Vec<String> = Vec::new();
    let mut k: usize = 0;
    while k < leaves.len()
        invariant
            k <= leaves.len(),
            ctx.wf(),
            ctx.aliases() == aliases,
            reps@.len() == k,
            forall|j: int| 0 <= j < k ==> #[trigger] reps@[j]@ == alias_shown(aliases, leaves@[j]@, pretty),
        decreases leaves.len() - k,
    {
        let s = get_alias_string(ctx, &leaves[k], pretty);
        reps.push(s);
        k = k + 1;
    }
    let r = substitute_all(debug, leaves, &reps, pretty);
    assert(reps@.map_values(|s: String| s@) =~= aliases_shown(aliases, leaf_views(leaves@), pretty));
    r
}

/// An identifier that can be given an alias.
pub trait AliasedId: ShortId {
    /// Whether its alias shows its short form before the chosen alias.
    fn show_short_id(&self) -> bool {
        true
    }

    /// The decorations around its alias.
    fn brackets(&self) -> (&'static str, &'static str) {
        (OPEN_BRACKET, CLOSE_BRACKET)
    }

    /// The leaf that it is: its debug texts, the text its short form is
    /// made from, its shortener and brackets.
    fn alias_leaf(&self) -> (r: AnyNameable) {
        AnyNameable::from_parts(
            debug_compact(self),
            debug_pretty(self),
            self.to_short_string(),
            Some(Shortener { length: self.length(), prefix: self.prefix() }),
            AliasedId::brackets(self),
        )
    }

    /// Gives it the alias `alias`, replacing any earlier one.
    fn with_alias(self, ctx: &mut NameContext, alias: &str) -> (r: Aliased<Self>)
        requires
            old(ctx).wf(),
        ensures
            final(ctx).wf(),
            r.0 == self,
            exists|l: LeafView, show: bool|
                final(ctx).aliases() == #[trigger] old(ctx).aliases().insert(
                    l.compact,
                    alias_text(l, alias@, show),
                ) && final(ctx).log() == old(ctx).log() + alias_shortening_events(
                    old(ctx).originals(),
                    l,
                    show,
                ) + alias_events(old(ctx).aliases(), l.compact, alias_text(l, alias@, show)),
    {
        let show = self.show_short_id();
        ctx.alias_leaf(&self.alias_leaf(), alias, show);
        Aliased(self)
    }

    /// How it shows without an alias: its short form in brackets.
    fn default_alias(&self, ctx: &mut NameContext) -> (r: String)
        requires
            old(ctx).wf(),
        ensures
            final(ctx).wf(),
            exists|sh: Shortener, x: Seq<char>, o: Seq<char>, c: Seq<char>|
                r@ == #[trigger] in_brackets(sh.fragment_of(x), o, c),
    {
        let (open, close) = AliasedId::brackets(self);
        let mut out = string_of(&chars_of(open));
        let short = self.short(ctx);
        out.append(short.as_str());
        out.append(close);
        proof {
            let (sh, x) = choose|sh: Shortener, x: Seq<char>|
                short@ == #[trigger] sh.fragment_of(x) && final(ctx).originals()
                    == old(ctx).originals().insert(sh.fragment_of(x), x);
            assert(out@ =~= in_brackets(sh.fragment_of(x), open@, close@));
        }
        out
    }
}

/// A value whose identifiers can be collected, in the order of its structure.
pub trait Aliasable: core::fmt::Debug + Sized {
    /// What is known of the value's identifiers (see `fits`); by default
    /// nothing.
    open spec fn id_shape(&self) -> Option<Seq<Option<LeafView>>> {
        None
    }

    /// The identifiers inside the value.
    fn aliased_ids(&self) -> (r: Vec<AnyNameable>)
        ensures
            fits(r@, self.id_shape()),
    ;

    /// The value wrapped for rendering with aliases.
    fn aliased(self) -> (r: Aliased<Self>)
        ensures
            r.0 == self,
    {
        Aliased(self)
    }
}

/// A value that renders with its identifiers replaced by their aliases.
#[derive(Clone, Copy, Debug, PartialEq, Eq, Hash, PartialOrd, Ord)]
pub struct Aliased<T>(pub T);

impl<T: Aliasable> Aliased<T> {
    /// Wraps `value`.
    pub fn new(value: T) -> (r: Aliased<T>)
        ensures
            r.0 == value,
    {
        Aliased(value)
    }

    /// The wrapped value.
    pub fn inner(&self) -> (r: &T)
        ensures
            *r == self.0,
    {
        &self.0
    }

    /// The debug text of the wrapped value, compact or pretty, with its
    /// identifiers replaced by how they show.
    pub fn render(&self, ctx: &mut NameContext, pretty: bool) -> (r: String)
        requires
            old(ctx).wf(),
        ensures
            exists|d: Seq<char>, leaves: Seq<AnyNameable>|
                fits(leaves, self.0.id_shape()) && r@ == #[trigger] substituted_all(
                    d,
                    leaf_views(leaves),
                    aliases_shown(old(ctx).aliases(), leaf_views(leaves), pretty),
                    pretty,
                ),
            final(ctx).wf(),
            final(ctx).aliases() == old(ctx).aliases(),
    {
        let leaves = self.0.aliased_ids();
        let debug = if pretty {
            debug_pretty(&self.0)
        } else {
            debug_compact(&self.0)
        };
        let r = alias_text_of(ctx, debug.as_str(), &leaves, pretty);
        assert(r@ == substituted_all(
            debug@,
            leaf_views(leaves@),
            aliases_shown(old(ctx).aliases(), leaf_views(leaves@), pretty),
            pretty,
        ));
        r
    }
}

impl<T: AliasedId> Aliasable for T {
    open spec fn id_shape(&self) -> Option<Seq<Option<LeafView>>> {
        one_leaf()
    }

    fn aliased_ids(&self) -> (r: Vec<AnyNameable>) {
        let mut v: Vec<AnyNameable> = Vec::new();
        v.push(self.alias_leaf());
        assert(v@.len() == 1);
        v
    }
}

/// The shape of the identifiers of a sequence of values, one after the other.
pub open spec fn seq_id_shape<T: Aliasable>(s: Seq<T>) -> Option<Seq<Option<LeafView>>>
    decreases s.len(),
{
    if s.len() == 0 {
        no_leaves()
    } else {
        joined(seq_id_shape(s.drop_last()), s.last().id_shape())
    }
}

fn ids_of_items<T: Aliasable>(items: &Vec<&T>) -> (r: Vec<AnyNameable>)
    ensures
        items@.len() == 0 ==> r@.len() == 0,
{
    let mut out: Vec<AnyNameable> = Vec::new();
    let mut i: usize = 0;
    while i < items.len()
        invariant
            i <= items.len(),
            i == 0 ==> out@.len() == 0,
        decreases items.len() - i,
    {
        append_leaves(&mut out, items[i].aliased_ids());
        i = i + 1;
    }
    out
}

fn ids_of_entries<K: Aliasable, V: Aliasable>(entries: &Vec<(&K, &V)>) -> (r: Vec<AnyNameable>)
    ensures
        entries@.len() == 0 ==> r@.len() == 0,
{
    let mut out: Vec<AnyNameable> = Vec::new();
    let mut i: usize = 0;
    while i < entries.len()
        invariant
            i <= entries.len(),
            i == 0 ==> out@.len() == 0,
        decreases entries.len() - i,
    {
        let (k, v) = entries[i];
        append_leaves(&mut out, k.aliased_ids());
        append_leaves(&mut out, v.aliased_ids());
        i = i + 1;
    }
    out
}

impl<T: Aliasable> Aliasable for Vec<T> {
    open spec fn id_shape(&self) -> Option<Seq<Option<LeafView>>> {
        seq_id_shape(self@)
    }

    fn aliased_ids(&self) -> (r: Vec<AnyNameable>) {
        let mut out: Vec<AnyNameable> = Vec::new();
        let mut i: usize = 0;
        assert(self@.take(0) =~= Seq::<T>::empty());
        while i < self.len()
            invariant
                i <= self.len(),
                fits(out@, seq_id_shape(self@.take(i as int))),
            decreases self.len() - i,
        {
            let more = self[i].aliased_ids();
            proof {
                let next = self@.take(i + 1);
                assert(next.drop_last() =~= self@.take(i as int));
                assert(next.last() == self@[i as int]);
            }
            append_fitting(
                &mut out,
                more,
                Ghost(seq_id_shape(self@.take(i as int))),
                Ghost(self@[i as int].id_shape()),
            );
            i = i + 1;
        }
        assert(self@.take(self.len() as int) =~= self@);
        out
    }
}

impl<T: Aliasable> Aliasable for std::collections::BTreeSet<T> {
    fn aliased_ids(&self) -> (r: Vec<AnyNameable>) {
        ids_of_items(&btree_set_items(self))
    }
}

impl<K: Aliasable, V: Aliasable> Aliasable for std::collections::BTreeMap<K, V> {
    fn aliased_ids(&self) -> (r: Vec<AnyNameable>) {
        ids_of_entries(&btree_map_items(self))
    }
}

impl<T: Aliasable> Aliasable for std::collections::HashSet<T> {
    fn aliased_ids(&self) -> (r: Vec<AnyNameable>) {
        ids_of_items(&hash_set_items(self))
    }
}

impl<K: Aliasable, V: Aliasable> Aliasable for std::collections::HashMap<K, V> {
    fn aliased_ids(&self) -> (r: Vec<AnyNameable>) {
        ids_of_entries(&hash_map_items(self))
    }
}

} // verus!
