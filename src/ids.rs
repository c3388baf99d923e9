//! Two ready-made identifier types: a number and a 32-byte hash, whose debug
//! texts are built here so that their leaves are known exactly.

use vstd::prelude::*;

use crate::collect::seq_shape;
use crate::leaf::{AnyNameable, LeafView, CLOSE_BRACKET, OPEN_BRACKET};
use crate::name::{decimal, push_decimal};
use crate::registry::{registered, NameContext, Shortener};
use crate::render::Rename;
use crate::text::{chars_of, push_char, string_of};

verus! {

/// A numeric identifier, shortened to four digits under the tag `ID`.
#[derive(Debug, Clone, Copy, PartialEq, Eq, PartialOrd, Ord, Hash)]
pub struct Num(pub u64);

/// The compact debug text of `Num(n)`.
pub open spec fn num_compact(n: nat) -> Seq<char> {
    seq!['N', 'u', 'm', '('] + decimal(n) + seq![')']
}

/// The pretty debug text of `Num(n)`.
pub open spec fn num_pretty(n: nat) -> Seq<char> {
    seq!['N', 'u', 'm', '(', '\n', ' ', ' ', ' ', ' '] + decimal(n) + seq![',', '\n', ')']
}

/// The leaf that `Num(n)` is.
pub open spec fn num_leaf(n: nat) -> LeafView {
    LeafView {
        compact: num_compact(n),
        pretty: num_pretty(n),
        display: decimal(n),
        shortener: Some(Shortener { length: 4, prefix: "ID" }),
        open: OPEN_BRACKET@,
        close: CLOSE_BRACKET@,
    }
}

impl Num {
    /// The leaf that this identifier is.
    pub fn leaf(&self) -> (r: AnyNameable)
        ensures
            r@ == num_leaf(self.0 as nat),
    {
        let mut compact = string_of(&chars_of("Num("));
        let mut pretty = string_of(&chars_of("Num(\n    "));
        let mut display = String::new();
        push_decimal(&mut display, self.0);
        compact.append(display.as_str());
        push_char(&mut compact, ')');
        pretty.append(display.as_str());
        push_char(&mut pretty, ',');
        push_char(&mut pretty, '\n');
        push_char(&mut pretty, ')');
        proof {
            reveal_strlit("Num(");
            reveal_strlit("Num(\n    ");
            assert(compact@ =~= num_compact(self.0 as nat));
            assert(pretty@ =~= num_pretty(self.0 as nat));
        }
        AnyNameable::from_parts(
            compact,
            pretty,
            display,
            Some(Shortener { length: 4, prefix: "ID" }),
            (OPEN_BRACKET, CLOSE_BRACKET),
        )
    }

    /// `Num(n)`, with its shortened form registered as its name.
    pub fn sh(ctx: &mut NameContext, n: u64) -> (r: Num)
        requires
            old(ctx).wf(),
        ensures
            r.0 == n,
            final(ctx).wf(),
            final(ctx).names() == registered(
                old(ctx).names(),
                num_compact(n as nat),
                num_leaf(n as nat).short_name(),
            ),
    {
        let id = Num(n);
        ctx.short_leaf(&id.leaf());
        id
    }
}

impl Rename for Num {
    open spec fn shape(&self) -> Option<Seq<Option<LeafView>>> {
        Some(seq![Some(num_leaf(self.0 as nat))])
    }

    fn nameables(&self) -> (r: Vec<AnyNameable>) {
        let mut v: Vec<AnyNameable> = Vec::new();
        v.push(self.leaf());
        assert(v@.len() == 1 && v@[0]@ == self.shape()->0[0]->0);
        v
    }
}

/// A list of numeric identifiers yields exactly their leaves, in order.
pub proof fn num_list_leaves(v: Seq<Num>)
    ensures
        seq_shape(v) == Some(v.map_values(|n: Num| Some(num_leaf(n.0 as nat)))),
    decreases v.len(),
{
    if v.len() > 0 {
        num_list_leaves(v.drop_last());
        assert(v.map_values(|n: Num| Some(num_leaf(n.0 as nat))) =~= v.drop_last().map_values(
            |n: Num| Some(num_leaf(n.0 as nat)),
        ) + seq![Some(num_leaf(v.last().0 as nat))]);
    } else {
        assert(v.map_values(|n: Num| Some(num_leaf(n.0 as nat))) =~= Seq::<Option<LeafView>>::empty());
    }
}

/// The lowercase hexadecimal digit for `d < 16`.
pub open spec fn hex_digit(d: nat) -> char {
    if d < 10 {
        ((d + '0' as nat) as u32) as char
    } else {
        ((d - 10 + 'a' as nat) as u32) as char
    }
}

/// Two lowercase hexadecimal digits for each byte, in order.
pub open spec fn hex_of(bytes: Seq<u8>) -> Seq<char>
    decreases bytes.len(),
{
    if bytes.len() == 0 {
        Seq::empty()
    } else {
        hex_of(bytes.drop_last()) + seq![
            hex_digit(bytes.last() as nat / 16),
            hex_digit(bytes.last() as nat % 16),
        ]
    }
}

/// Relies on `hex::encode`: two lowercase hexadecimal digits for each byte.
#[verifier::external_body]
fn hex_encode(bytes: &[u8; 32]) -> (r: String)
    ensures
        r@ == hex_of(bytes@),
{
    hex::encode(bytes)
}

/// The bytes in decimal, separated by a comma and a space.
pub open spec fn byte_list(bytes: Seq<u8>) -> Seq<char>
    decreases bytes.len(),
{
    if bytes.len() == 0 {
        Seq::empty()
    } else if bytes.len() == 1 {
        decimal(bytes[0] as nat)
    } else {
        byte_list(bytes.drop_last()) + seq![',', ' '] + decimal(bytes.last() as nat)
    }
}

/// The bytes in decimal, one per line, each indented by eight spaces and
/// followed by a comma.
pub open spec fn byte_lines(bytes: Seq<u8>) -> Seq<char>
    decreases bytes.len(),
{
    if bytes.len() == 0 {
        Seq::empty()
    } else {
        byte_lines(bytes.drop_last()) + Seq::new(8, |i: int| ' ') + decimal(bytes.last() as nat)
            + seq![',', '\n']
    }
}

/// A 32-byte hash, shown in hexadecimal and shortened to four digits under
/// the tag `X`.
#[derive(Debug, Clone, Copy, PartialEq, Eq, PartialOrd, Ord, Hash)]
pub struct Hex(pub [u8; 32]);

/// The compact debug text of `Hex(bytes)`.
pub open spec fn hex_compact(bytes: Seq<u8>) -> Seq<char> {
    seq!['H', 'e', 'x', '(', '['] + byte_list(bytes) + seq![']', ')']
}

/// The pretty debug text of `Hex(bytes)`.
pub open spec fn hex_pretty(bytes: Seq<u8>) -> Seq<char> {
    seq!['H', 'e', 'x', '(', '\n', ' ', ' ', ' ', ' ', '[', '\n'] + byte_lines(bytes) + seq![
        ' ',
        ' ',
        ' ',
        ' ',
        ']',
        ',',
        '\n',
        ')',
    ]
}

/// The leaf that `Hex(bytes)` is.
pub open spec fn hex_leaf(bytes: Seq<u8>) -> LeafView {
    LeafView {
        compact: hex_compact(bytes),
        pretty: hex_pretty(bytes),
        display: hex_of(bytes),
        shortener: Some(Shortener { length: 4, prefix: "X" }),
        open: OPEN_BRACKET@,
        close: CLOSE_BRACKET@,
    }
}

impl Hex {
    /// The leaf that this hash is.
    pub fn leaf(&self) -> (r: AnyNameable)
        ensures
            r@ == hex_leaf(self.0@),
    {
        let bytes = &self.0;
        let mut list = String::new();
        let mut lines = String::new();
        let mut i: usize = 0;
        while i < 32
            invariant
                i <= 32,
                bytes@.len() == 32,
                list@ == byte_list(bytes@.take(i as int)),
                lines@ == byte_lines(bytes@.take(i as int)),
            decreases 32 - i,
        {
            let b = bytes[i];
            proof {
                let next = bytes@.take(i + 1);
                assert(next.drop_last() =~= bytes@.take(i as int));
                assert(next.last() == b);
            }
            if i > 0 {
                push_char(&mut list, ',');
                push_char(&mut list, ' ');
            }
            push_decimal(&mut list, b as u64);
            let mut k: usize = 0;
            let ghost start = lines@;
            while k < 8
                invariant
                    k <= 8,
                    lines@ == start + Seq::new(k as nat, |j: int| ' '),
                decreases 8 - k,
            {
                push_char(&mut lines, ' ');
                k = k + 1;
                assert(lines@ =~= start + Seq::new(k as nat, |j: int| ' '));
            }
            push_decimal(&mut lines, b as u64);
            push_char(&mut lines, ',');
            push_char(&mut lines, '\n');
            i = i + 1;
            proof {
                if i == 1 {
                    assert(bytes@.take(0) =~= Seq::<u8>::empty());
                    assert(bytes@.take(1)[0] == b);
                }
                assert(list@ =~= byte_list(bytes@.take(i as int)));
                assert(lines@ =~= byte_lines(bytes@.take(i as int)));
            }
        }
        assert(bytes@.take(32) =~= bytes@);
        let mut compact = string_of(&chars_of("Hex(["));
        compact.append(list.as_str());
        push_char(&mut compact, ']');
        push_char(&mut compact, ')');
        let mut pretty = string_of(&chars_of("Hex(\n    [\n"));
        pretty.append(lines.as_str());
        pretty.append("    ],\n)");
        proof {
            reveal_strlit("Hex([");
            reveal_strlit("Hex(\n    [\n");
            reveal_strlit("    ],\n)");
            assert(compact@ =~= hex_compact(self.0@));
            assert(pretty@ =~= hex_pretty(self.0@));
        }
        AnyNameable::from_parts(
            compact,
            pretty,
            hex_encode(bytes),
            Some(Shortener { length: 4, prefix: "X" }),
            (OPEN_BRACKET, CLOSE_BRACKET),
        )
    }

    /// The hash made of 32 copies of `n`, with its shortened form registered as
    /// its name.
    pub fn sh(ctx: &mut NameContext, n: u8) -> (r: Hex)
        requires
            old(ctx).wf(),
        ensures
            r.0@ == Seq::new(32, |i: int| n),
            final(ctx).wf(),
            final(ctx).names() == registered(
                old(ctx).names(),
                hex_compact(r.0@),
                hex_leaf(r.0@).short_name(),
            ),
    {
        let id = Hex([n; 32]);
        assert(id.0@ =~= Seq::new(32, |i: int| n));
        ctx.short_leaf(&id.leaf());
        id
    }
}

impl Rename for Hex {
    open spec fn shape(&self) -> Option<Seq<Option<LeafView>>> {
        Some(seq![Some(hex_leaf(self.0@))])
    }

    fn nameables(&self) -> (r: Vec<AnyNameable>) {
        let mut v: Vec<AnyNameable> = Vec::new();
        v.push(self.leaf());
        assert(v@.len() == 1 && v@[0]@ == self.shape()->0[0]->0);
        v
    }
}

} // verus!
