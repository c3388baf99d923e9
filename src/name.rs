//! Display names for identifiers, and the specificity order among their kinds.

use vstd::prelude::*;

use crate::text::{push_char, same_str};

verus! {

/// The body of a name.
#[derive(Debug)]
pub enum NameKind {
    /// A sequence number handed out in order.
    Serial(usize),
    /// The shortened form of the identifier.
    Short(String),
    /// A name chosen by the caller.
    Name(String),
    /// A chosen name shown after the shortened form.
    NameShort { name: String, short: String },
}

/// A `NameKind` with its strings as character sequences.
pub enum NameKindView {
    Serial(nat),
    Short(Seq<char>),
    Name(Seq<char>),
    NameShort { name: Seq<char>, short: Seq<char> },
}

impl View for NameKind {
    type V = NameKindView;

    open spec fn view(&self) -> NameKindView {
        match self {
            NameKind::Serial(n) => NameKindView::Serial(*n as nat),
            NameKind::Short(s) => NameKindView::Short(s@),
            NameKind::Name(n) => NameKindView::Name(n@),
            NameKind::NameShort { name, short } => NameKindView::NameShort {
                name: name@,
                short: short@,
            },
        }
    }
}

impl NameKindView {
    /// Specificity: `Serial < Short < Name < NameShort`.
    pub open spec fn rank(self) -> nat {
        match self {
            NameKindView::Serial(_) => 0,
            NameKindView::Short(_) => 1,
            NameKindView::Name(_) => 2,
            NameKindView::NameShort { .. } => 3,
        }
    }

    /// The text of the body, before the prefix and the brackets.
    pub open spec fn body(self) -> Seq<char> {
        match self {
            NameKindView::Serial(n) => seq!['#'] + padded3(n),
            NameKindView::Short(s) => s,
            NameKindView::Name(n) => n,
            NameKindView::NameShort { name, short } => short + seq!['|'] + name,
        }
    }
}

/// The decimal digit for `d < 10`.
pub open spec fn digit(d: nat) -> char {
    ((d + '0' as nat) as u32) as char
}

/// The decimal digits of `n`, most significant first.
pub open spec fn decimal(n: nat) -> Seq<char>
    decreases n,
{
    if n < 10 {
        seq![digit(n)]
    } else {
        decimal(n / 10).push(digit(n % 10))
    }
}

/// The decimal digits of `n`, padded with zeros in front to at least three.
pub open spec fn padded3(n: nat) -> Seq<char> {
    let d = decimal(n);
    if d.len() >= 3 {
        d
    } else {
        Seq::new((3 - d.len()) as nat, |i: int| '0') + d
    }
}

proof fn lemma_decimal_len(n: nat)
    ensures
        n < 10 ==> decimal(n).len() == 1,
        10 <= n < 100 ==> decimal(n).len() == 2,
        n >= 100 ==> decimal(n).len() >= 3,
    decreases n,
{
    if n >= 10 {
        lemma_decimal_len(n / 10);
    }
}

fn digit_char(d: usize) -> (c: char)
    requires
        d < 10,
    ensures
        c == digit(d as nat),
{
    if d == 0 { '0' }
    else if d == 1 { '1' }
    else if d == 2 { '2' }
    else if d == 3 { '3' }
    else if d == 4 { '4' }
    else if d == 5 { '5' }
    else if d == 6 { '6' }
    else if d == 7 { '7' }
    else if d == 8 { '8' }
    else { '9' }
}

/// Appends the decimal digits of `n`.
pub fn push_decimal(out: &mut String, n: u64)
    ensures
        final(out)@ == old(out)@ + decimal(n as nat),
    decreases n,
{
    if n >= 10 {
        push_decimal(out, n / 10);
    }
    push_char(out, digit_char((n % 10) as usize));
    assert(final(out)@ =~= old(out)@ + decimal(n as nat));
}

/// `#` and the serial number, padded with zeros to three digits.
pub fn serial_text(n: usize) -> (r: String)
    ensures
        r@ == seq!['#'] + padded3(n as nat),
{
    let mut out = String::new();
    push_char(&mut out, '#');
    if n < 10 {
        push_char(&mut out, '0');
        push_char(&mut out, '0');
    } else if n < 100 {
        push_char(&mut out, '0');
    }
    let ghost head = out@;
    push_decimal(&mut out, n as u64);
    proof {
        lemma_decimal_len(n as nat);
        let pad = Seq::new((3 - decimal(n as nat).len()) as nat, |i: int| '0');
        if n < 10 {
            assert(pad =~= seq!['0', '0']);
        } else if n < 100 {
            assert(pad =~= seq!['0']);
        }
        assert(out@ =~= seq!['#'] + padded3(n as nat));
    }
    out
}

impl NameKind {
    /// The specificity of this kind; a higher one may replace a lower one.
    pub fn specificity(&self) -> (r: u8)
        ensures
            r as nat == self@.rank(),
    {
        match self {
            NameKind::Serial(_) => 0,
            NameKind::Short(_) => 1,
            NameKind::Name(_) => 2,
            NameKind::NameShort { .. } => 3,
        }
    }

    /// A copy of this kind.
    pub fn duplicate(&self) -> (r: NameKind)
        ensures
            r@ == self@,
    {
        match self {
            NameKind::Serial(n) => NameKind::Serial(*n),
            NameKind::Short(s) => NameKind::Short(s.clone()),
            NameKind::Name(n) => NameKind::Name(n.clone()),
            NameKind::NameShort { name, short } => NameKind::NameShort {
                name: name.clone(),
                short: short.clone(),
            },
        }
    }

    /// Whether the two kinds are the same, variant and text.
    pub fn same_as(&self, other: &NameKind) -> (r: bool)
        ensures
            r == (self@ == other@),
    {
        match (self, other) {
            (NameKind::Serial(a), NameKind::Serial(b)) => *a == *b,
            (NameKind::Short(a), NameKind::Short(b)) => *a == *b,
            (NameKind::Name(a), NameKind::Name(b)) => *a == *b,
            (
                NameKind::NameShort { name: a, short: b },
                NameKind::NameShort { name: c, short: d },
            ) => *a == *c && *b == *d,
            _ => false,
        }
    }

    /// The text of the body, before the prefix and the brackets.
    pub fn body_text(&self) -> (r: String)
        ensures
            r@ == self@.body(),
    {
        match self {
            NameKind::Serial(n) => serial_text(*n),
            NameKind::Short(s) => s.clone(),
            NameKind::Name(n) => n.clone(),
            NameKind::NameShort { name, short } => {
                let mut out = short.clone();
                push_char(&mut out, '|');
                out.append(name.as_str());
                assert(out@ =~= self@.body());
                out
            },
        }
    }
}

/// The display form chosen for an identifier.
#[derive(Debug)]
pub struct Name {
    /// The type tag, from the identifier's shortener.
    pub prefix: Option<&'static str>,
    pub kind: NameKind,
    /// The opening and closing decorations.
    pub brackets: (&'static str, &'static str),
}

/// A `Name` with its strings as character sequences.
pub struct NameView {
    pub prefix: Option<Seq<char>>,
    pub kind: NameKindView,
    pub open: Seq<char>,
    pub close: Seq<char>,
}

impl View for Name {
    type V = NameView;

    open spec fn view(&self) -> NameView {
        NameView {
            prefix: match self.prefix {
                Some(p) => Some(p@),
                None => None,
            },
            kind: self.kind@,
            open: self.brackets.0@,
            close: self.brackets.1@,
        }
    }
}

/// `open`, then `s`, then `close`.
pub open spec fn in_brackets(s: Seq<char>, open: Seq<char>, close: Seq<char>) -> Seq<char> {
    open + s + close
}

/// `s` between the two decorations.
pub fn bracketed(s: &str, brackets: (&'static str, &'static str)) -> (r: String)
    ensures
        r@ == in_brackets(s@, brackets.0@, brackets.1@),
{
    let mut out = String::new();
    out.append(brackets.0);
    out.append(s);
    out.append(brackets.1);
    assert(out@ =~= in_brackets(s@, brackets.0@, brackets.1@));
    out
}

impl NameView {
    /// The rendered name: the prefix and a bar before the body, all in brackets.
    pub open spec fn text(self) -> Seq<char> {
        let inner = match self.prefix {
            Some(p) => p + seq!['|'] + self.kind.body(),
            None => self.kind.body(),
        };
        in_brackets(inner, self.open, self.close)
    }
}

impl Name {
    /// A copy of this name.
    pub fn duplicate(&self) -> (r: Name)
        ensures
            r@ == self@,
    {
        Name { prefix: self.prefix, kind: self.kind.duplicate(), brackets: self.brackets }
    }

    /// Whether the two names are the same in prefix, kind and brackets.
    pub fn same_as(&self, other: &Name) -> (r: bool)
        ensures
            r == (self@ == other@),
    {
        let same_prefix = match (self.prefix, other.prefix) {
            (Some(a), Some(b)) => same_str(a, b),
            (None, None) => true,
            _ => false,
        };
        same_prefix && self.kind.same_as(&other.kind) && same_str(self.brackets.0, other.brackets.0)
            && same_str(self.brackets.1, other.brackets.1)
    }

    /// The rendered name, as it stands in place of the identifier.
    pub fn render(&self) -> (r: String)
        ensures
            r@ == self@.text(),
    {
        let mut out = String::new();
        out.append(self.brackets.0);
        match self.prefix {
            Some(p) => {
                out.append(p);
                push_char(&mut out, '|');
            },
            None => {},
        }
        out.append(self.kind.body_text().as_str());
        out.append(self.brackets.1);
        assert(out@ =~= self@.text());
        out
    }
}

} // verus!
