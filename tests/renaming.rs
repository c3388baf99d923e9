use std::collections::HashMap;
use std::fmt::Display;

use named_id::{
    collect_members, AnyNameable, Member, NameContext, Nameable, Rename, Shortener,
};

#[derive(Debug, Clone, PartialEq, Eq, PartialOrd, Ord, Hash)]
struct Num(u64);

impl Display for Num {
    fn fmt(&self, f: &mut std::fmt::Formatter<'_>) -> std::fmt::Result {
        f.write_str(&self.0.to_string())
    }
}

impl Num {
    pub fn sh(ctx: &mut NameContext, n: u64) -> Self {
        Self(n).with_short(ctx)
    }
}

impl Nameable for Num {
    fn shortener(&self) -> Option<Shortener> {
        Some(Shortener {
            length: 4,
            prefix: "ID",
        })
    }
}

#[derive(Debug, Clone, PartialEq, Eq, PartialOrd, Ord, Hash)]
struct Hex([u8; 32]);

impl Hex {
    pub fn sh(ctx: &mut NameContext, n: u8) -> Self {
        Self([n; 32]).with_short(ctx)
    }
}

impl Nameable for Hex {
    fn shortener(&self) -> Option<Shortener> {
        Some(Shortener {
            length: 4,
            prefix: "X",
        })
    }
}

impl Display for Hex {
    fn fmt(&self, fmt: &mut std::fmt::Formatter<'_>) -> std::fmt::Result {
        fmt.write_str(&hex::encode(self.0))
    }
}

#[test]
fn test_short_id() {
    let mut ctx = NameContext::new();
    let id1 = Num(1234567890);
    let id2 = Num(2345678901);
    let id3 = Num(3456789012);
    let idx = Num(12349876);
    assert_eq!(id1.short(&mut ctx), "ID|1234");
    assert_eq!(id2.short(&mut ctx), "ID|2345");
    assert_eq!(id3.short(&mut ctx), "ID|3456");

    assert_eq!(idx.short(&mut ctx), "ID|1234");
}

#[test]
fn test_named_id() {
    let mut ctx = NameContext::new();
    let id1 = Num(1234567890).with_name(&mut ctx, "foo");
    let id2 = Num(2345678901).with_name(&mut ctx, "bar");
    let id3 = Num(3456789012).with_name(&mut ctx, "baz");
    let idx = Num(12349876).with_name(&mut ctx, "qux");
    let idz = Num(987654321);

    assert_eq!(id1.renamed().render(&mut ctx, false), "⟪ID|foo⟫");
    assert_eq!(id2.renamed().render(&mut ctx, false), "⟪ID|bar⟫");
    assert_eq!(id3.renamed().render(&mut ctx, false), "⟪ID|baz⟫");

    assert_eq!(idx.renamed().render(&mut ctx, false), "⟪ID|qux⟫");
    assert_eq!(idz.renamed().render(&mut ctx, false), "⟪ID|9876⟫");
}

#[test]
fn test_named_id_vec() {
    let mut ctx = NameContext::new();
    let v = vec![
        Num(11111111).with_short(&mut ctx),
        Num(22222222).with_short(&mut ctx),
        Num(33333333).with_short(&mut ctx),
    ];
    let a = v.renamed();
    assert_eq!(a.render(&mut ctx, false), "[⟪ID|1111⟫, ⟪ID|2222⟫, ⟪ID|3333⟫]");
    assert_eq!(a.render(&mut ctx, false), "[⟪ID|1111⟫, ⟪ID|2222⟫, ⟪ID|3333⟫]");
    assert_eq!(
        a.render(&mut ctx, true),
        "
[
    ⟪ID|1111⟫,
    ⟪ID|2222⟫,
    ⟪ID|3333⟫,
]
    "
        .trim()
    );

    let s = std::collections::BTreeSet::from([Num(11111111), Num(22222222), Num(33333333)]);
    let a = s.renamed();
    assert_eq!(a.render(&mut ctx, false), "{⟪ID|1111⟫, ⟪ID|2222⟫, ⟪ID|3333⟫}");
    assert_eq!(a.render(&mut ctx, false), "{⟪ID|1111⟫, ⟪ID|2222⟫, ⟪ID|3333⟫}");
    assert_eq!(
        a.render(&mut ctx, true),
        "
{
    ⟪ID|1111⟫,
    ⟪ID|2222⟫,
    ⟪ID|3333⟫,
}
    "
        .trim()
    );
}

#[test]
fn test_named_id_maps() {
    let mut ctx = NameContext::new();
    let c = &mut ctx;
    let s = std::collections::BTreeMap::from([
        (
            Num(11111111).with_short(c),
            vec![Num(22222222).with_short(c), Num(55555555).with_short(c)],
        ),
        (
            Num(22222222).with_short(c),
            vec![Num(33333333).with_short(c), Num(66666666).with_short(c)],
        ),
        (
            Num(33333333).with_short(c),
            vec![Num(44444444).with_short(c), Num(77777777).with_short(c)],
        ),
    ]);
    let a = s.renamed();
    assert_eq!(
        a.render(&mut ctx, false),
        "{⟪ID|1111⟫: [⟪ID|2222⟫, ⟪ID|5555⟫], ⟪ID|2222⟫: [⟪ID|3333⟫, ⟪ID|6666⟫], ⟪ID|3333⟫: [⟪ID|4444⟫, ⟪ID|7777⟫]}"
    );
    assert_eq!(
        a.render(&mut ctx, false),
        "{⟪ID|1111⟫: [⟪ID|2222⟫, ⟪ID|5555⟫], ⟪ID|2222⟫: [⟪ID|3333⟫, ⟪ID|6666⟫], ⟪ID|3333⟫: [⟪ID|4444⟫, ⟪ID|7777⟫]}"
    );
    assert_eq!(
        a.render(&mut ctx, true),
        "
{
    ⟪ID|1111⟫: [
        ⟪ID|2222⟫,
        ⟪ID|5555⟫,
    ],
    ⟪ID|2222⟫: [
        ⟪ID|3333⟫,
        ⟪ID|6666⟫,
    ],
    ⟪ID|3333⟫: [
        ⟪ID|4444⟫,
        ⟪ID|7777⟫,
    ],
}
        "
        .trim()
    );
}

#[derive(Debug, Clone)]
struct GenericStruct<X, Y, Z> {
    x: X,
    y: (X, Y),
    z: Z,
}

impl<X: Rename, Y: Rename, Z: std::fmt::Debug> Rename for GenericStruct<X, Y, Z> {
    fn nameables(&self) -> Vec<AnyNameable> {
        collect_members(vec![
            Member { skip: false, leaves: self.x.nameables() },
            Member { skip: false, leaves: self.y.nameables() },
            Member { skip: true, leaves: vec![] },
        ])
    }
}

#[derive(Debug, Clone)]
#[allow(unused)]
enum GenericEnum<X, Y> {
    X { m: Vec<X>, n: HashMap<X, Y> },
    Y(Y),
}

impl<X: Rename, Y: Rename> Rename for GenericEnum<X, Y> {
    fn nameables(&self) -> Vec<AnyNameable> {
        match self {
            GenericEnum::X { m: _, n } => collect_members(vec![
                Member { skip: true, leaves: vec![] },
                Member { skip: false, leaves: n.nameables() },
            ]),
            GenericEnum::Y(y) => collect_members(vec![Member { skip: false, leaves: y.nameables() }]),
        }
    }
}

#[test]
fn test_generic_nameables() {
    let mut ctx = NameContext::new();
    let gs = GenericStruct {
        x: Num::sh(&mut ctx, 11111111),
        y: (Num::sh(&mut ctx, 22222222), Hex::sh(&mut ctx, 1)),
        z: 1234567890,
    };

    // The skipped field z contributes no leaves.
    let nameables = gs.nameables();
    assert_eq!(nameables.len(), 3);

    let gs = gs.renamed();
    assert_eq!(
        gs.render(&mut ctx, false),
        "GenericStruct { x: ⟪ID|1111⟫, y: (⟪ID|2222⟫, ⟪X|0101⟫), z: 1234567890 }"
    );

    // The skipped field still shows, as it is.
    let debug_output = gs.render(&mut ctx, false);
    assert!(debug_output.contains("⟪ID|1111⟫"));
    assert!(debug_output.contains("⟪X|0101⟫"));
    assert!(debug_output.contains("1234567890"));

    let ge: GenericEnum<Num, Hex> = GenericEnum::X {
        m: vec![Num::sh(&mut ctx, 22222222), Num::sh(&mut ctx, 33333333)],
        n: HashMap::from([(Num::sh(&mut ctx, 44444444), Hex::sh(&mut ctx, 1))]),
    };
    assert_eq!(
        ge.renamed().render(&mut ctx, false),
        "X { m: [Num(22222222), Num(33333333)], n: {⟪ID|4444⟫: ⟪X|0101⟫} }"
    );
}

#[derive(Debug, Clone)]
enum A {
    Nums(Vec<Num>),
    Hex(Hex),
    Skip(Num),
}

impl Rename for A {
    fn nameables(&self) -> Vec<AnyNameable> {
        match self {
            A::Nums(v) => collect_members(vec![Member { skip: false, leaves: v.nameables() }]),
            A::Hex(h) => collect_members(vec![Member { skip: false, leaves: h.nameables() }]),
            A::Skip(_) => vec![],
        }
    }
}

#[derive(Debug, Clone)]
struct B {
    a: A,
    #[allow(unused)]
    x: u32,
}

impl Rename for B {
    fn nameables(&self) -> Vec<AnyNameable> {
        collect_members(vec![
            Member { skip: false, leaves: self.a.nameables() },
            Member { skip: true, leaves: vec![] },
        ])
    }
}

#[derive(Debug, Clone)]
struct C {
    aa: Vec<A>,
    bb: Vec<B>,
}

impl Rename for C {
    fn nameables(&self) -> Vec<AnyNameable> {
        collect_members(vec![
            Member { skip: false, leaves: self.aa.nameables() },
            Member { skip: false, leaves: self.bb.nameables() },
        ])
    }
}

#[test]
fn test_deep_nesting() {
    let mut ctx = NameContext::new();
    let c = &mut ctx;
    let c = C {
        aa: vec![
            A::Nums(vec![Num::sh(c, 11111111), Num::sh(c, 22222222), Num::sh(c, 33333333)]),
            A::Hex(Hex::sh(c, 1)),
            A::Skip(Num(99999999)),
        ],
        bb: vec![
            B {
                a: A::Nums(vec![Num::sh(c, 11111111), Num::sh(c, 22222222), Num::sh(c, 33333333)]),
                x: 1234567890,
            },
            B {
                a: A::Hex(Hex::sh(c, 2)),
                x: 1234567890,
            },
        ],
    };
    let a = c.renamed();
    assert_eq!(
        a.render(&mut ctx, false),
        "C { aa: [Nums([⟪ID|1111⟫, ⟪ID|2222⟫, ⟪ID|3333⟫]), Hex(⟪X|0101⟫), Skip(Num(99999999))], bb: [B { a: Nums([⟪ID|1111⟫, ⟪ID|2222⟫, ⟪ID|3333⟫]), x: 1234567890 }, B { a: Hex(⟪X|0202⟫), x: 1234567890 }] }"
    );
    assert_eq!(
        a.render(&mut ctx, false),
        "C { aa: [Nums([⟪ID|1111⟫, ⟪ID|2222⟫, ⟪ID|3333⟫]), Hex(⟪X|0101⟫), Skip(Num(99999999))], bb: [B { a: Nums([⟪ID|1111⟫, ⟪ID|2222⟫, ⟪ID|3333⟫]), x: 1234567890 }, B { a: Hex(⟪X|0202⟫), x: 1234567890 }] }"
    );
    assert_eq!(
        a.render(&mut ctx, true),
        "
C {
    aa: [
        Nums(
            [
                ⟪ID|1111⟫,
                ⟪ID|2222⟫,
                ⟪ID|3333⟫,
            ],
        ),
        Hex(
            ⟪X|0101⟫,
        ),
        Skip(
            Num(
                99999999,
            ),
        ),
    ],
    bb: [
        B {
            a: Nums(
                [
                    ⟪ID|1111⟫,
                    ⟪ID|2222⟫,
                    ⟪ID|3333⟫,
                ],
            ),
            x: 1234567890,
        },
        B {
            a: Hex(
                ⟪X|0202⟫,
            ),
            x: 1234567890,
        },
    ],
}
        "
        .trim()
    );
}
