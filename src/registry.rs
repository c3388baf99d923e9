//! The name registry and the short-ID cache, held together in a context
//! object, with the events a logger reports.

use vstd::prelude::*;

use crate::name::{Name, NameView};
use crate::table::TextTable;
use crate::text::{chars_of, push_char, string_of};

verus! {

/// How an identifier's text is shortened: the first `length` characters,
/// after the type tag `prefix`.
pub struct Shortener {
    pub length: usize,
    pub prefix: &'static str,
}

/// The first `len` characters of `x`, or `x` itself where it is shorter.
pub open spec fn truncated(x: Seq<char>, len: nat) -> Seq<char> {
    if x.len() <= len {
        x
    } else {
        x.take(len as int)
    }
}

/// The separator shown between the type tag and an empty truncation.
pub open spec fn empty_separator() -> char {
    '\u{2016}'
}

impl Shortener {
    /// The shortened fragment of `x`: the tag, a bar (or the sentinel bar when
    /// nothing of `x` is kept), then the kept characters.
    pub open spec fn fragment_of(self, x: Seq<char>) -> Seq<char> {
        let t = truncated(x, self.length as nat);
        self.prefix@ + (if t.len() == 0 {
            seq![empty_separator()]
        } else {
            seq!['|']
        }) + t
    }

    /// The first `length` characters of `original`.
    pub fn truncate(&self, original: &str) -> (r: String)
        ensures
            r@ == truncated(original@, self.length as nat),
    {
        let c = chars_of(original);
        let mut out = String::new();
        let mut i: usize = 0;
        while i < c.len() && i < self.length
            invariant
                i <= c.len(),
                i <= self.length,
                c@ == original@,
                out@ == c@.take(i as int),
            decreases c.len() - i,
        {
            push_char(&mut out, c[i]);
            i = i + 1;
            assert(out@ =~= c@.take(i as int));
        }
        if i == c.len() {
            assert(c@.take(i as int) =~= c@);
        }
        assert(out@ =~= truncated(original@, self.length as nat));
        out
    }

    /// The shortened fragment of `original`, which is recorded in the context's
    /// short-ID cache; a different original already recorded under the same
    /// fragment is logged as a collision.
    pub fn shorten(&self, ctx: &mut NameContext, original: &str) -> (r: String)
        requires
            old(ctx).wf(),
        ensures
            r@ == self.fragment_of(original@),
            final(ctx).wf(),
            final(ctx).originals() == old(ctx).originals().insert(r@, original@),
            final(ctx).names() == old(ctx).names(),
            final(ctx).aliases() == old(ctx).aliases(),
            final(ctx).prefix_owners() == old(ctx).prefix_owners(),
            final(ctx).next_serial() == old(ctx).next_serial(),
            final(ctx).log() == old(ctx).log() + collision_events(
                old(ctx).originals(),
                r@,
                original@,
            ),
    {
        let t = self.truncate(original);
        let mut fragment = String::new();
        fragment.append(self.prefix);
        if t.as_str().unicode_len() == 0 {
            push_char(&mut fragment, '\u{2016}');
        } else {
            push_char(&mut fragment, '|');
        }
        fragment.append(t.as_str());
        assert(fragment@ =~= self.fragment_of(original@));
        ctx.record_short(fragment.clone(), original);
        fragment
    }
}

/// What the context reports for a logger.
pub enum Event {
    /// Two different originals share one shortened fragment.
    ShortCollision { fragment: String, earlier: String, original: String },
    /// A more specific name replaced the one registered.
    NameReplaced { key: String, previous: Name, name: Name },
    /// A name no more specific than the one registered was not taken.
    NameKept { key: String, existing: Name, name: Name },
    /// A first name was registered.
    NameSet { key: String, name: Name },
    /// An alias replaced a different one.
    AliasReplaced { key: String, earlier: String, alias: String },
    /// A type tag already recorded for another owner was claimed again.
    PrefixClash { prefix: String, earlier: String, owner: String },
}

/// An `Event` with its strings as character sequences.
pub enum EventView {
    ShortCollision { fragment: Seq<char>, earlier: Seq<char>, original: Seq<char> },
    NameReplaced { key: Seq<char>, previous: NameView, name: NameView },
    NameKept { key: Seq<char>, existing: NameView, name: NameView },
    NameSet { key: Seq<char>, name: NameView },
    AliasReplaced { key: Seq<char>, earlier: Seq<char>, alias: Seq<char> },
    PrefixClash { prefix: Seq<char>, earlier: Seq<char>, owner: Seq<char> },
}

impl View for Event {
    type V = EventView;

    open spec fn view(&self) -> EventView {
        match self {
            Event::ShortCollision { fragment, earlier, original } => EventView::ShortCollision {
                fragment: fragment@,
                earlier: earlier@,
                original: original@,
            },
            Event::NameReplaced { key, previous, name } => EventView::NameReplaced {
                key: key@,
                previous: previous@,
                name: name@,
            },
            Event::NameKept { key, existing, name } => EventView::NameKept {
                key: key@,
                existing: existing@,
                name: name@,
            },
            Event::NameSet { key, name } => EventView::NameSet { key: key@, name: name@ },
            Event::AliasReplaced { key, earlier, alias } => EventView::AliasReplaced {
                key: key@,
                earlier: earlier@,
                alias: alias@,
            },
            Event::PrefixClash { prefix, earlier, owner } => EventView::PrefixClash {
                prefix: prefix@,
                earlier: earlier@,
                owner: owner@,
            },
        }
    }
}

/// The collision that recording `original` under `fragment` reports, if any.
pub open spec fn collision_events(
    originals: Map<Seq<char>, Seq<char>>,
    fragment: Seq<char>,
    original: Seq<char>,
) -> Seq<EventView> {
    if originals.contains_key(fragment) && originals[fragment] != original {
        seq![
            EventView::ShortCollision {
                fragment,
                earlier: originals[fragment],
                original,
            },
        ]
    } else {
        Seq::empty()
    }
}

/// Whether `incoming` may replace `existing`: only a strictly more specific
/// kind does.
pub open spec fn may_replace(existing: NameView, incoming: NameView) -> bool {
    incoming.kind.rank() > existing.kind.rank()
}

/// The registry after asking to register `name` for `key`.
pub open spec fn registered(names: Map<Seq<char>, NameView>, key: Seq<char>, name: NameView) -> Map<
    Seq<char>,
    NameView,
> {
    if !names.contains_key(key) || may_replace(names[key], name) {
        names.insert(key, name)
    } else {
        names
    }
}

/// What asking to register `name` for `key` reports.
pub open spec fn registration_events(
    names: Map<Seq<char>, NameView>,
    key: Seq<char>,
    name: NameView,
) -> Seq<EventView> {
    if !names.contains_key(key) {
        seq![EventView::NameSet { key, name }]
    } else if names[key] == name {
        Seq::empty()
    } else if may_replace(names[key], name) {
        seq![EventView::NameReplaced { key, previous: names[key], name }]
    } else {
        seq![EventView::NameKept { key, existing: names[key], name }]
    }
}

/// What setting the alias `alias` for `key` reports: a replacement where a
/// different alias was set before.
pub open spec fn alias_events(
    aliases: Map<Seq<char>, Seq<char>>,
    key: Seq<char>,
    alias: Seq<char>,
) -> Seq<EventView> {
    if aliases.contains_key(key) && aliases[key] != alias {
        seq![EventView::AliasReplaced { key, earlier: aliases[key], alias }]
    } else {
        Seq::empty()
    }
}

/// The registry of names and the short-ID cache, each keyed by text, with the
/// events not yet taken and the next serial number.
pub struct NameContext {
    names: TextTable<Name>,
    shorts: TextTable<String>,
    aliases: TextTable<String>,
    prefixes: TextTable<String>,
    events: Vec<Event>,
    serial: usize,
}

impl NameContext {
    /// The context's invariant.
    pub closed spec fn wf(&self) -> bool {
        self.names.wf() && self.shorts.wf() && self.aliases.wf() && self.prefixes.wf()
    }

    /// The aliases, by the canonical debug text of the identifier.
    pub closed spec fn aliases(&self) -> Map<Seq<char>, Seq<char>> {
        self.aliases@.map_values(|s: String| s@)
    }

    /// The owner recorded for each type tag.
    pub closed spec fn prefix_owners(&self) -> Map<Seq<char>, Seq<char>> {
        self.prefixes@.map_values(|s: String| s@)
    }

    /// The registered names, by the canonical debug text of the identifier.
    pub closed spec fn names(&self) -> Map<Seq<char>, NameView> {
        self.names@.map_values(|n: Name| n@)
    }

    /// The short-ID cache: the last original recorded for each fragment.
    pub closed spec fn originals(&self) -> Map<Seq<char>, Seq<char>> {
        self.shorts@.map_values(|s: String| s@)
    }

    /// The events not yet taken, oldest first.
    pub closed spec fn log(&self) -> Seq<EventView> {
        self.events@.map_values(|e: Event| e@)
    }

    /// The serial number that the next serial name gets.
    pub closed spec fn next_serial(&self) -> nat {
        self.serial as nat
    }

    /// A context with no names, an empty cache and no events.
    pub fn new() -> (r: NameContext)
        ensures
            r.wf(),
            r.names() == Map::<Seq<char>, NameView>::empty(),
            r.originals() == Map::<Seq<char>, Seq<char>>::empty(),
            r.aliases() == Map::<Seq<char>, Seq<char>>::empty(),
            r.prefix_owners() == Map::<Seq<char>, Seq<char>>::empty(),
            r.log() == Seq::<EventView>::empty(),
            r.next_serial() == 0,
    {
        let r = NameContext {
            names: TextTable::new(),
            shorts: TextTable::new(),
            aliases: TextTable::new(),
            prefixes: TextTable::new(),
            events: Vec::new(),
            serial: 0,
        };
        assert(r.names() =~= Map::<Seq<char>, NameView>::empty());
        assert(r.originals() =~= Map::<Seq<char>, Seq<char>>::empty());
        assert(r.aliases() =~= Map::<Seq<char>, Seq<char>>::empty());
        assert(r.prefix_owners() =~= Map::<Seq<char>, Seq<char>>::empty());
        assert(r.log() =~= Seq::<EventView>::empty());
        r
    }

    fn push_event(&mut self, e: Event)
        ensures
            final(self).log() == old(self).log().push(e@),
            final(self).names == old(self).names,
            final(self).shorts == old(self).shorts,
            final(self).aliases == old(self).aliases,
            final(self).prefixes == old(self).prefixes,
            final(self).serial == old(self).serial,
    {
        self.events.push(e);
        assert(self.log() =~= old(self).log().push(e@));
    }

    /// Takes the events logged so far, oldest first, and leaves none.
    pub fn take_events(&mut self) -> (r: Vec<Event>)
        ensures
            r@.map_values(|e: Event| e@) == old(self).log(),
            final(self).log() == Seq::<EventView>::empty(),
            final(self).wf() == old(self).wf(),
            final(self).names() == old(self).names(),
            final(self).originals() == old(self).originals(),
            final(self).next_serial() == old(self).next_serial(),
    {
        let mut r: Vec<Event> = Vec::new();
        std::mem::swap(&mut self.events, &mut r);
        assert(self.log() =~= Seq::<EventView>::empty());
        r
    }

    fn record_short(&mut self, fragment: String, original: &str)
        requires
            old(self).wf(),
        ensures
            final(self).wf(),
            final(self).originals() == old(self).originals().insert(fragment@, original@),
            final(self).names() == old(self).names(),
            final(self).aliases() == old(self).aliases(),
            final(self).prefix_owners() == old(self).prefix_owners(),
            final(self).next_serial() == old(self).next_serial(),
            final(self).log() == old(self).log() + collision_events(
                old(self).originals(),
                fragment@,
                original@,
            ),
    {
        let orig = string_of(&chars_of(original));
        let previous = match self.shorts.get(fragment.as_str()) {
            Some(p) => Some(p.clone()),
            None => None,
        };
        let ghost frag = fragment@;
        let key = fragment.clone();
        self.shorts.insert(key, orig.clone());
        proof {
            assert(self.originals() =~= old(self).originals().insert(frag, original@));
        }
        match previous {
            Some(p) => {
                if !(p == orig) {
                    self.push_event(
                        Event::ShortCollision { fragment, earlier: p, original: orig },
                    );
                    assert(self.log() =~= old(self).log() + collision_events(
                        old(self).originals(),
                        frag,
                        original@,
                    ));
                } else {
                    assert(self.log() =~= old(self).log() + collision_events(
                        old(self).originals(),
                        frag,
                        original@,
                    ));
                }
            },
            None => {
                assert(self.log() =~= old(self).log() + collision_events(
                    old(self).originals(),
                    frag,
                    original@,
                ));
            },
        }
    }

    /// Asks to register `name` for the identifier whose canonical debug text is
    /// `key`: it is taken where no name is registered yet or where it is more
    /// specific than the registered one, and is otherwise dropped.
    pub fn set_name(&mut self, key: &str, name: Name)
        requires
            old(self).wf(),
        ensures
            final(self).wf(),
            final(self).names() == registered(old(self).names(), key@, name@),
            final(self).log() == old(self).log() + registration_events(
                old(self).names(),
                key@,
                name@,
            ),
            final(self).originals() == old(self).originals(),
            final(self).aliases() == old(self).aliases(),
            final(self).prefix_owners() == old(self).prefix_owners(),
            final(self).next_serial() == old(self).next_serial(),
    {
        let k = string_of(&chars_of(key));
        let existing = match self.names.get(key) {
            Some(n) => Some(n.duplicate()),
            None => None,
        };
        let ghost nv = name@;
        match existing {
            None => {
                let event = Event::NameSet { key: k.clone(), name: name.duplicate() };
                self.names.insert(k, name);
                self.push_event(event);
                assert(self.names() =~= registered(old(self).names(), key@, nv));
                assert(self.log() =~= old(self).log() + registration_events(
                    old(self).names(),
                    key@,
                    nv,
                ));
            },
            Some(old_name) => {
                if old_name.same_as(&name) {
                    assert(self.log() =~= old(self).log() + registration_events(
                        old(self).names(),
                        key@,
                        nv,
                    ));
                } else if name.kind.specificity() > old_name.kind.specificity() {
                    let event = Event::NameReplaced {
                        key: k.clone(),
                        previous: old_name,
                        name: name.duplicate(),
                    };
                    self.names.insert(k, name);
                    self.push_event(event);
                    assert(self.names() =~= registered(old(self).names(), key@, nv));
                    assert(self.log() =~= old(self).log() + registration_events(
                        old(self).names(),
                        key@,
                        nv,
                    ));
                } else {
                    self.push_event(Event::NameKept { key: k, existing: old_name, name });
                    assert(self.log() =~= old(self).log() + registration_events(
                        old(self).names(),
                        key@,
                        nv,
                    ));
                }
            },
        }
    }

    pub(crate) fn take_serial(&mut self) -> (r: usize)
        ensures
            r as nat == old(self).next_serial(),
            final(self).next_serial() == if old(self).next_serial() < usize::MAX {
                old(self).next_serial() + 1
            } else {
                0
            },
            final(self).wf() == old(self).wf(),
            final(self).names() == old(self).names(),
            final(self).originals() == old(self).originals(),
            final(self).log() == old(self).log(),
    {
        let r = self.serial;
        self.serial = if r < usize::MAX {
            r + 1
        } else {
            0
        };
        r
    }

    /// Sets the alias of the identifier whose canonical debug text is `key`,
    /// replacing any earlier one; replacing a different one is logged.
    pub fn set_alias(&mut self, key: &str, alias: String)
        requires
            old(self).wf(),
        ensures
            final(self).wf(),
            final(self).aliases() == old(self).aliases().insert(key@, alias@),
            final(self).names() == old(self).names(),
            final(self).next_serial() == old(self).next_serial(),
            final(self).log() == old(self).log() + alias_events(old(self).aliases(), key@, alias@),
            final(self).originals() == old(self).originals(),
    {
        let k = string_of(&chars_of(key));
        let earlier = match self.aliases.get(key) {
            Some(a) => Some(a.clone()),
            None => None,
        };
        let ghost av = alias@;
        let copy = alias.clone();
        self.aliases.insert(k.clone(), alias);
        assert(self.aliases() =~= old(self).aliases().insert(key@, av));
        match earlier {
            Some(e) => {
                if !(e == copy) {
                    self.push_event(Event::AliasReplaced { key: k, earlier: e, alias: copy });
                }
            },
            None => {},
        }
        assert(self.log() =~= old(self).log() + alias_events(old(self).aliases(), key@, av));
    }

    /// The alias set for `key`, if any.
    pub fn resolve_alias(&self, key: &str) -> (r: Option<String>)
        requires
            self.wf(),
        ensures
            match r {
                Some(a) => self.aliases().contains_key(key@) && a@ == self.aliases()[key@],
                None => !self.aliases().contains_key(key@),
            },
    {
        match self.aliases.get(key) {
            Some(a) => Some(a.clone()),
            None => None,
        }
    }

    /// Records `owner` as the owner of the type tag `prefix`; answers whether
    /// the tag was free or already recorded for that same owner, and logs a
    /// clash where it was not.
    pub fn register_prefix(&mut self, prefix: &str, owner: &str) -> (r: bool)
        requires
            old(self).wf(),
        ensures
            r == (!old(self).prefix_owners().contains_key(prefix@)
                || old(self).prefix_owners()[prefix@] == owner@),
            final(self).wf(),
            final(self).prefix_owners() == old(self).prefix_owners().insert(prefix@, owner@),
            final(self).names() == old(self).names(),
            final(self).originals() == old(self).originals(),
            final(self).aliases() == old(self).aliases(),
            final(self).log() == old(self).log() + if r {
                Seq::empty()
            } else {
                seq![
                    EventView::PrefixClash {
                        prefix: prefix@,
                        earlier: old(self).prefix_owners()[prefix@],
                        owner: owner@,
                    },
                ]
            },
            final(self).next_serial() == old(self).next_serial(),
    {
        let o = string_of(&chars_of(owner));
        let earlier = match self.prefixes.get(prefix) {
            Some(p) => Some(p.clone()),
            None => None,
        };
        let p = string_of(&chars_of(prefix));
        self.prefixes.insert(p.clone(), o.clone());
        assert(self.prefix_owners() =~= old(self).prefix_owners().insert(prefix@, owner@));
        match earlier {
            Some(e) => {
                if e == o {
                    assert(self.log() =~= old(self).log() + Seq::<EventView>::empty());
                    true
                } else {
                    self.push_event(Event::PrefixClash { prefix: p, earlier: e, owner: o });
                    false
                }
            },
            None => {
                assert(self.log() =~= old(self).log() + Seq::<EventView>::empty());
                true
            },
        }
    }

    /// The name registered for `key`, if any.
    pub fn resolve(&self, key: &str) -> (r: Option<Name>)
        requires
            self.wf(),
        ensures
            match r {
                Some(n) => self.names().contains_key(key@) && n@ == self.names()[key@],
                None => !self.names().contains_key(key@),
            },
    {
        match self.names.get(key) {
            Some(n) => Some(n.duplicate()),
            None => None,
        }
    }
}

} // verus!
