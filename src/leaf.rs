//! Leaves: identifiers that can be named, described by their texts.

use vstd::prelude::*;

use crate::name::{Name, NameKind, NameKindView, NameView};
use crate::registry::{
    collision_events, registered, registration_events, EventView, NameContext, Shortener,
};
use crate::text::{chars_of, string_of};

verus! {

/// Relies on `format!("{:?}")`: the compact debug text of `t`.
#[verifier::external_body]
pub(crate) fn debug_compact<T: core::fmt::Debug + ?Sized>(t: &T) -> String {
    format!("{:?}", t)
}

/// Relies on `format!("{:#?}")`: the pretty, multi-line debug text of `t`.
#[verifier::external_body]
pub(crate) fn debug_pretty<T: core::fmt::Debug + ?Sized>(t: &T) -> String {
    format!("{:#?}", t)
}

/// What a value needs for its debug text to be rendered.
pub trait AnyNameableBounds: core::fmt::Debug {}

impl<T: core::fmt::Debug + ?Sized> AnyNameableBounds for T {}

/// The default decorations around a name.
pub const OPEN_BRACKET: &'static str = "\u{27ea}";

/// The default closing decoration.
pub const CLOSE_BRACKET: &'static str = "\u{27eb}";

/// A leaf taken out of a value: what rendering needs to know of it.
pub struct AnyNameable {
    /// Compact debug text: the registry key and the compact pattern.
    compact: String,
    /// Pretty debug text: the source of the pretty pattern.
    pretty: String,
    /// The text that the shortener truncates.
    display: String,
    shortener: Option<Shortener>,
    brackets: (&'static str, &'static str),
}

/// An `AnyNameable` with its strings as character sequences.
pub struct LeafView {
    pub compact: Seq<char>,
    pub pretty: Seq<char>,
    pub display: Seq<char>,
    pub shortener: Option<Shortener>,
    pub open: Seq<char>,
    pub close: Seq<char>,
}

impl View for AnyNameable {
    type V = LeafView;

    closed spec fn view(&self) -> LeafView {
        LeafView {
            compact: self.compact@,
            pretty: self.pretty@,
            display: self.display@,
            shortener: self.shortener,
            open: self.brackets.0@,
            close: self.brackets.1@,
        }
    }
}

impl LeafView {
    /// How the leaf shows when no name is registered: its shortened fragment in
    /// brackets, or else its own debug text, pretty in pretty mode, unchanged.
    pub open spec fn default_text(self, pretty: bool) -> Seq<char> {
        match self.shortener {
            Some(s) => self.open + s.fragment_of(self.display) + self.close,
            None => if pretty {
                self.pretty
            } else {
                self.compact
            },
        }
    }

    /// The type tag of the leaf's shortener.
    pub open spec fn prefix(self) -> Option<Seq<char>> {
        match self.shortener {
            Some(s) => Some(s.prefix@),
            None => None,
        }
    }

    /// The name that gives the leaf the chosen name `n`.
    pub open spec fn plain_name(self, n: Seq<char>) -> NameView {
        NameView {
            prefix: self.prefix(),
            kind: NameKindView::Name(n),
            open: self.open,
            close: self.close,
        }
    }

    /// The name that gives the leaf the chosen name `n` beside its shortened
    /// form, or only `n` where it has no shortener.
    pub open spec fn name_and_short(self, n: Seq<char>) -> NameView {
        match self.shortener {
            Some(s) => NameView {
                prefix: Some(s.prefix@),
                kind: NameKindView::NameShort {
                    name: n,
                    short: crate::registry::truncated(self.display, s.length as nat),
                },
                open: self.open,
                close: self.close,
            },
            None => self.plain_name(n),
        }
    }

    /// The name that shows the leaf's shortened form, or its display text
    /// where it has no shortener.
    pub open spec fn short_name(self) -> NameView {
        NameView {
            prefix: self.prefix(),
            kind: NameKindView::Short(
                match self.shortener {
                    Some(s) => crate::registry::truncated(self.display, s.length as nat),
                    None => self.display,
                },
            ),
            open: self.open,
            close: self.close,
        }
    }

    /// The name that shows the serial number `n`.
    pub open spec fn serial_name(self, n: nat) -> NameView {
        NameView {
            prefix: self.prefix(),
            kind: NameKindView::Serial(n),
            open: self.open,
            close: self.close,
        }
    }
}

/// The short-ID cache after the leaf's display text is shortened, where it
/// has a shortener.
pub open spec fn after_shortening(originals: Map<Seq<char>, Seq<char>>, leaf: LeafView) -> Map<
    Seq<char>,
    Seq<char>,
> {
    match leaf.shortener {
        Some(s) => originals.insert(s.fragment_of(leaf.display), leaf.display),
        None => originals,
    }
}

/// What shortening the leaf's display text reports, where it has a shortener.
pub open spec fn shortening_events(originals: Map<Seq<char>, Seq<char>>, leaf: LeafView) -> Seq<
    EventView,
> {
    match leaf.shortener {
        Some(s) => collision_events(originals, s.fragment_of(leaf.display), leaf.display),
        None => Seq::empty(),
    }
}

/// How a leaf shows under the given registry, in compact or pretty mode.
pub open spec fn shown_as(names: Map<Seq<char>, NameView>, leaf: LeafView, pretty: bool) -> Seq<
    char,
> {
    if names.contains_key(leaf.compact) {
        names[leaf.compact].text()
    } else {
        leaf.default_text(pretty)
    }
}

impl Clone for Shortener {
    fn clone(&self) -> (r: Shortener)
        ensures
            r == *self,
    {
        Shortener { length: self.length, prefix: self.prefix }
    }
}

impl AnyNameable {
    /// A leaf given by its texts directly.
    pub fn from_parts(
        compact: String,
        pretty: String,
        display: String,
        shortener: Option<Shortener>,
        brackets: (&'static str, &'static str),
    ) -> (r: AnyNameable)
        ensures
            r@ == (LeafView {
                compact: compact@,
                pretty: pretty@,
                display: display@,
                shortener,
                open: brackets.0@,
                close: brackets.1@,
            }),
    {
        AnyNameable { compact, pretty, display, shortener, brackets }
    }

    /// The leaf that `t` is: its debug texts, display text, shortener and
    /// brackets.
    pub fn describe<T: Nameable>(t: &T) -> (r: AnyNameable) {
        t.as_leaf()
    }

    /// The leaf that `t` is.
    pub fn new<T: Nameable>(t: T) -> (r: AnyNameable) {
        AnyNameable::describe(&t)
    }

    /// The compact debug text, which keys the registry.
    pub fn key(&self) -> (r: &str)
        ensures
            r@ == self@.compact,
    {
        self.compact.as_str()
    }

    /// The pretty debug text, which the pretty pattern is built from.
    pub fn pretty_text(&self) -> (r: &str)
        ensures
            r@ == self@.pretty,
    {
        self.pretty.as_str()
    }

    /// The text that the shortener truncates.
    pub fn display_text(&self) -> (r: &str)
        ensures
            r@ == self@.display,
    {
        self.display.as_str()
    }

    /// The shortener, if any.
    pub fn shortener_ref(&self) -> (r: &Option<Shortener>)
        ensures
            *r == self@.shortener,
    {
        &self.shortener
    }

    /// The opening and closing decorations.
    pub fn bracket_pair(&self) -> (r: (&'static str, &'static str))
        ensures
            r.0@ == self@.open,
            r.1@ == self@.close,
    {
        self.brackets
    }

    /// A copy of this leaf.
    pub fn duplicate(&self) -> (r: AnyNameable)
        ensures
            r@ == self@,
    {
        AnyNameable {
            compact: self.compact.clone(),
            pretty: self.pretty.clone(),
            display: self.display.clone(),
            shortener: match &self.shortener {
                Some(s) => Some(s.clone()),
                None => None,
            },
            brackets: self.brackets,
        }
    }
}

/// How `id` shows in compact or pretty mode: its registered name rendered,
/// or else its default text. The default text's fragment is recorded in the
/// short-ID cache.
pub fn get_name_string(ctx: &mut NameContext, id: &AnyNameable, pretty: bool) -> (r: String)
    requires
        old(ctx).wf(),
    ensures
        r@ == shown_as(old(ctx).names(), id@, pretty),
        final(ctx).wf(),
        final(ctx).names() == old(ctx).names(),
        final(ctx).next_serial() == old(ctx).next_serial(),
{
    match ctx.resolve(id.compact.as_str()) {
        Some(n) => n.render(),
        None => match &id.shortener {
            Some(s) => {
                let fragment = s.shorten(ctx, id.display.as_str());
                let mut out = String::new();
                out.append(id.brackets.0);
                out.append(fragment.as_str());
                out.append(id.brackets.1);
                assert(out@ =~= id@.default_text(pretty));
                out
            },
            None => if pretty {
                id.pretty.clone()
            } else {
                id.compact.clone()
            },
        },
    }
}

/// The leaf's display text shortened as its own `short` does: the shortened
/// fragment, recorded in the cache, or the display text itself.
fn short_text(ctx: &mut NameContext, id: &AnyNameable) -> (r: String)
    requires
        old(ctx).wf(),
    ensures
        final(ctx).wf(),
        final(ctx).names() == old(ctx).names(),
        final(ctx).next_serial() == old(ctx).next_serial(),
        r@ == match id@.shortener {
            Some(s) => s.fragment_of(id@.display),
            None => id@.display,
        },
{
    match &id.shortener {
        Some(s) => s.shorten(ctx, id.display.as_str()),
        None => id.display.clone(),
    }
}

impl NameContext {
    /// Registers the chosen name `name` for `id`.
    pub fn name_leaf(&mut self, id: &AnyNameable, name: &str)
        requires
            old(self).wf(),
        ensures
            final(self).wf(),
            final(self).names() == registered(
                old(self).names(),
                id@.compact,
                id@.plain_name(name@),
            ),
            final(self).log() == old(self).log() + registration_events(
                old(self).names(),
                id@.compact,
                id@.plain_name(name@),
            ),
            final(self).originals() == old(self).originals(),
            final(self).next_serial() == old(self).next_serial(),
    {
        let prefix = match &id.shortener {
            Some(s) => Some(s.prefix),
            None => None,
        };
        let n = Name {
            prefix,
            kind: NameKind::Name(string_of(&chars_of(name))),
            brackets: id.brackets,
        };
        assert(n@ == id@.plain_name(name@));
        self.set_name(id.compact.as_str(), n);
    }

    /// Registers the chosen name `name` for `id` beside its shortened form.
    pub fn name_and_short_leaf(&mut self, id: &AnyNameable, name: &str)
        requires
            old(self).wf(),
        ensures
            final(self).wf(),
            final(self).names() == registered(
                old(self).names(),
                id@.compact,
                id@.name_and_short(name@),
            ),
            final(self).log() == old(self).log() + shortening_events(old(self).originals(), id@)
                + registration_events(old(self).names(), id@.compact, id@.name_and_short(name@)),
            final(self).originals() == after_shortening(old(self).originals(), id@),
            final(self).next_serial() == old(self).next_serial(),
    {
        match &id.shortener {
            Some(s) => {
                s.shorten(self, id.display.as_str());
                let n = Name {
                    prefix: Some(s.prefix),
                    kind: NameKind::NameShort {
                        name: string_of(&chars_of(name)),
                        short: s.truncate(id.display.as_str()),
                    },
                    brackets: id.brackets,
                };
                assert(n@ == id@.name_and_short(name@));
                self.set_name(id.compact.as_str(), n);
            },
            None => {
                self.name_leaf(id, name);
            },
        }
    }

    /// Registers the shortened form of `id` as its name.
    pub fn short_leaf(&mut self, id: &AnyNameable)
        requires
            old(self).wf(),
        ensures
            final(self).wf(),
            final(self).names() == registered(old(self).names(), id@.compact, id@.short_name()),
            final(self).log() == old(self).log() + shortening_events(old(self).originals(), id@)
                + registration_events(old(self).names(), id@.compact, id@.short_name()),
            final(self).originals() == after_shortening(old(self).originals(), id@),
            final(self).next_serial() == old(self).next_serial(),
    {
        let (prefix, short) = match &id.shortener {
            Some(s) => {
                s.shorten(self, id.display.as_str());
                (Some(s.prefix), s.truncate(id.display.as_str()))
            },
            None => (None, id.display.clone()),
        };
        let n = Name { prefix, kind: NameKind::Short(short), brackets: id.brackets };
        assert(n@ == id@.short_name());
        self.set_name(id.compact.as_str(), n);
    }

    /// Registers the next serial number as the name of `id`; the counter then
    /// moves on by one, wrapping at the top of `usize`.
    pub fn serial_leaf(&mut self, id: &AnyNameable)
        requires
            old(self).wf(),
        ensures
            final(self).wf(),
            final(self).names() == registered(
                old(self).names(),
                id@.compact,
                id@.serial_name(old(self).next_serial()),
            ),
            final(self).log() == old(self).log() + registration_events(
                old(self).names(),
                id@.compact,
                id@.serial_name(old(self).next_serial()),
            ),
            final(self).originals() == old(self).originals(),
            final(self).next_serial() == if old(self).next_serial() < usize::MAX {
                old(self).next_serial() + 1
            } else {
                0
            },
    {
        let serial = self.take_serial();
        let prefix = match &id.shortener {
            Some(s) => Some(s.prefix),
            None => None,
        };
        let n = Name { prefix, kind: NameKind::Serial(serial), brackets: id.brackets };
        assert(n@ == id@.serial_name(old(self).next_serial()));
        self.set_name(id.compact.as_str(), n);
    }
}

/// An identifier type that can be given a name. Its debug text keys the
/// registry; its display text is what its shortener truncates.
pub trait Nameable: core::fmt::Debug + core::fmt::Display + Sized {
    /// How to shorten this identifier, if it can be.
    fn shortener(&self) -> Option<Shortener>;

    /// The decorations around its name.
    fn brackets(&self) -> (&'static str, &'static str) {
        (OPEN_BRACKET, CLOSE_BRACKET)
    }

    /// The leaf that it is: its debug texts, display text, shortener and
    /// brackets.
    fn as_leaf(&self) -> (r: AnyNameable) {
        AnyNameable::from_parts(
            debug_compact(self),
            debug_pretty(self),
            self.to_string(),
            self.shortener(),
            self.brackets(),
        )
    }

    /// Gives it the chosen name `name`.
    fn with_name(self, ctx: &mut NameContext, name: &str) -> (r: Self)
        requires
            old(ctx).wf(),
        ensures
            final(ctx).wf(),
            r == self,
            exists|l: LeafView|
                final(ctx).names() == #[trigger] registered(
                    old(ctx).names(),
                    l.compact,
                    l.plain_name(name@),
                ) && final(ctx).log() == old(ctx).log() + registration_events(
                    old(ctx).names(),
                    l.compact,
                    l.plain_name(name@),
                ) && final(ctx).originals() == old(ctx).originals(),
    {
        ctx.name_leaf(&self.as_leaf(), name);
        self
    }

    /// Gives it the chosen name `name`, shown after its shortened form.
    fn with_name_and_short(self, ctx: &mut NameContext, name: &str) -> (r: Self)
        requires
            old(ctx).wf(),
        ensures
            final(ctx).wf(),
            r == self,
            exists|l: LeafView|
                final(ctx).names() == #[trigger] registered(
                    old(ctx).names(),
                    l.compact,
                    l.name_and_short(name@),
                ) && final(ctx).log() == old(ctx).log() + shortening_events(old(ctx).originals(), l)
                    + registration_events(old(ctx).names(), l.compact, l.name_and_short(name@))
                    && final(ctx).originals() == after_shortening(old(ctx).originals(), l),
    {
        ctx.name_and_short_leaf(&self.as_leaf(), name);
        self
    }

    /// Gives it its shortened form as its name.
    fn with_short(self, ctx: &mut NameContext) -> (r: Self)
        requires
            old(ctx).wf(),
        ensures
            final(ctx).wf(),
            r == self,
            exists|l: LeafView|
                final(ctx).names() == #[trigger] registered(
                    old(ctx).names(),
                    l.compact,
                    l.short_name(),
                ) && final(ctx).log() == old(ctx).log() + shortening_events(old(ctx).originals(), l)
                    + registration_events(old(ctx).names(), l.compact, l.short_name())
                    && final(ctx).originals() == after_shortening(old(ctx).originals(), l),
    {
        ctx.short_leaf(&self.as_leaf());
        self
    }

    /// Gives it the next serial number as its name.
    fn with_serial(self, ctx: &mut NameContext) -> (r: Self)
        requires
            old(ctx).wf(),
        ensures
            final(ctx).wf(),
            r == self,
            exists|l: LeafView|
                final(ctx).names() == #[trigger] registered(
                    old(ctx).names(),
                    l.compact,
                    l.serial_name(old(ctx).next_serial()),
                ) && final(ctx).log() == old(ctx).log() + registration_events(
                    old(ctx).names(),
                    l.compact,
                    l.serial_name(old(ctx).next_serial()),
                ) && final(ctx).originals() == old(ctx).originals(),
            final(ctx).next_serial() == if old(ctx).next_serial() < usize::MAX {
                old(ctx).next_serial() + 1
            } else {
                0
            },
    {
        ctx.serial_leaf(&self.as_leaf());
        self
    }

    /// Its shortened fragment, recorded in the cache, or its display text
    /// where it has no shortener.
    fn short(&self, ctx: &mut NameContext) -> (r: String)
        requires
            old(ctx).wf(),
        ensures
            final(ctx).wf(),
            final(ctx).names() == old(ctx).names(),
            exists|l: LeafView|
                r@ == match l.shortener {
                    Some(s) => s.fragment_of(l.display),
                    None => l.display,
                },
    {
        short_text(ctx, &self.as_leaf())
    }
}

} // verus!
