use std::fmt::Display;

use named_id::{collect_members, AnyNameable, Member, NameContext, Nameable, Rename, Shortener};

#[derive(Debug, Clone, PartialEq, Eq, PartialOrd, Ord, Hash)]
struct Num(u64);

impl Display for Num {
    fn fmt(&self, f: &mut std::fmt::Formatter<'_>) -> std::fmt::Result {
        f.write_str(&self.0.to_string())
    }
}

impl Nameable for Num {
    fn shortener(&self) -> Option<Shortener> {
        Some(Shortener {
            length: 4,
            prefix: "ID",
        })
    }
}

/// A type that declares it holds no leaves.
#[derive(Debug, Clone)]
enum A {
    Num(Num),
}

impl Rename for A {
    fn nameables(&self) -> Vec<AnyNameable> {
        vec![]
    }
}

#[derive(Debug, Clone)]
struct C {
    a: A,
    x: Num,
}

impl Rename for C {
    fn nameables(&self) -> Vec<AnyNameable> {
        collect_members(vec![
            Member { skip: false, leaves: self.a.nameables() },
            Member { skip: false, leaves: self.x.nameables() },
        ])
    }
}

#[test]
fn test_no_nameables() {
    let mut ctx = NameContext::new();
    let num = Num(11).with_name(&mut ctx, "foo");

    let val = C {
        a: A::Num(Num(22).with_name(&mut ctx, "bar")),
        x: num,
    }
    .renamed();
    assert_eq!(val.render(&mut ctx, false), "C { a: Num(Num(22)), x: ⟪ID|foo⟫ }");
    assert_eq!(
        val.render(&mut ctx, true),
        "
C {
    a: Num(
        Num(
            22,
        ),
    ),
    x: ⟪ID|foo⟫,
}
    "
        .trim()
    );
}
