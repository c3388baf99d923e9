use named_id::{Aliasable, AliasedId, ContainsAliases, NameContext, ShortId};

#[derive(Debug, PartialEq, Eq, PartialOrd, Ord, Hash)]
struct TestId(u64);

impl ShortId for TestId {
    fn prefix(&self) -> &'static str {
        "ID"
    }

    fn to_short_string(&self) -> String {
        format!("{}", self.0)
    }
}

impl AliasedId for TestId {}

#[test]
fn test_aliased_id() {
    let mut ctx = NameContext::new();
    let id1 = TestId(1234567890).with_alias(&mut ctx, "foo");
    let id2 = TestId(2345678901).with_alias(&mut ctx, "bar");
    let id3 = TestId(3456789012).with_alias(&mut ctx, "baz");
    let idx = TestId(12349876).with_alias(&mut ctx, "qux");
    let idz = TestId(987654321);

    assert_eq!(id1.render(&mut ctx, false), "⟪ID|1234|foo⟫");
    assert_eq!(id2.render(&mut ctx, false), "⟪ID|2345|bar⟫");
    assert_eq!(id3.render(&mut ctx, false), "⟪ID|3456|baz⟫");

    assert_eq!(idx.render(&mut ctx, false), "⟪ID|1234|qux⟫");
    assert_eq!(idz.aliased().render(&mut ctx, false), "⟪ID|9876⟫");
}

#[test]
fn aliasable_test_aliased_id_vec() {
    let mut ctx = NameContext::new();
    let v = vec![TestId(11111111), TestId(22222222), TestId(33333333)];
    let a = Aliasable::aliased(v);
    assert_eq!(a.render(&mut ctx, false), "[⟪ID|1111⟫, ⟪ID|2222⟫, ⟪ID|3333⟫]");
    assert_eq!(a.render(&mut ctx, false), "[⟪ID|1111⟫, ⟪ID|2222⟫, ⟪ID|3333⟫]");

    let s = std::collections::BTreeSet::from([TestId(11111111), TestId(22222222), TestId(33333333)]);
    let a = Aliasable::aliased(s);
    assert_eq!(a.render(&mut ctx, false), "{⟪ID|1111⟫, ⟪ID|2222⟫, ⟪ID|3333⟫}");
    assert_eq!(a.render(&mut ctx, false), "{⟪ID|1111⟫, ⟪ID|2222⟫, ⟪ID|3333⟫}");
}

#[test]
fn aliasable_test_aliased_id_maps() {
    let mut ctx = NameContext::new();
    let s = std::collections::BTreeMap::from([
        (TestId(11111111), vec![TestId(22222222), TestId(55555555)]),
        (TestId(22222222), vec![TestId(33333333), TestId(66666666)]),
        (TestId(33333333), vec![TestId(44444444), TestId(77777777)]),
    ]);
    let a = Aliasable::aliased(s);
    assert_eq!(
        a.render(&mut ctx, false),
        "{⟪ID|1111⟫: [⟪ID|2222⟫, ⟪ID|5555⟫], ⟪ID|2222⟫: [⟪ID|3333⟫, ⟪ID|6666⟫], ⟪ID|3333⟫: [⟪ID|4444⟫, ⟪ID|7777⟫]}"
    );
    assert_eq!(
        a.render(&mut ctx, false),
        "{⟪ID|1111⟫: [⟪ID|2222⟫, ⟪ID|5555⟫], ⟪ID|2222⟫: [⟪ID|3333⟫, ⟪ID|6666⟫], ⟪ID|3333⟫: [⟪ID|4444⟫, ⟪ID|7777⟫]}"
    );
}

#[test]
fn contains_aliases_test_aliased_id_vec() {
    let mut ctx = NameContext::new();
    let v = vec![TestId(11111111), TestId(22222222), TestId(33333333)];
    let a = ContainsAliases::aliased(v);
    assert_eq!(a.render(&mut ctx, false), "[⟪ID|1111⟫, ⟪ID|2222⟫, ⟪ID|3333⟫]");
    assert_eq!(a.render(&mut ctx, false), "[⟪ID|1111⟫, ⟪ID|2222⟫, ⟪ID|3333⟫]");
    assert_eq!(
        a.render(&mut ctx, true),
        "
[
    ⟪ID|1111⟫,
    ⟪ID|2222⟫,
    ⟪ID|3333⟫,
]
        "
        .trim()
    );

    let s = std::collections::BTreeSet::from([TestId(11111111), TestId(22222222), TestId(33333333)]);
    let a = ContainsAliases::aliased(s);
    assert_eq!(a.render(&mut ctx, false), "{⟪ID|1111⟫, ⟪ID|2222⟫, ⟪ID|3333⟫}");
    assert_eq!(a.render(&mut ctx, false), "{⟪ID|1111⟫, ⟪ID|2222⟫, ⟪ID|3333⟫}");
    assert_eq!(
        a.render(&mut ctx, true),
        "
{
    ⟪ID|1111⟫,
    ⟪ID|2222⟫,
    ⟪ID|3333⟫,
}
        "
        .trim()
    );
}

#[test]
fn contains_aliases_test_aliased_id_maps() {
    let mut ctx = NameContext::new();
    let s = std::collections::BTreeMap::from([
        (TestId(11111111), vec![TestId(22222222), TestId(55555555)]),
        (TestId(22222222), vec![TestId(33333333), TestId(66666666)]),
        (TestId(33333333), vec![TestId(44444444), TestId(77777777)]),
    ]);
    let a = ContainsAliases::aliased(s);
    assert_eq!(
        a.render(&mut ctx, false),
        "{⟪ID|1111⟫: [⟪ID|2222⟫, ⟪ID|5555⟫], ⟪ID|2222⟫: [⟪ID|3333⟫, ⟪ID|6666⟫], ⟪ID|3333⟫: [⟪ID|4444⟫, ⟪ID|7777⟫]}"
    );
    assert_eq!(
        a.render(&mut ctx, false),
        "{⟪ID|1111⟫: [⟪ID|2222⟫, ⟪ID|5555⟫], ⟪ID|2222⟫: [⟪ID|3333⟫, ⟪ID|6666⟫], ⟪ID|3333⟫: [⟪ID|4444⟫, ⟪ID|7777⟫]}"
    );
    assert_eq!(
        a.render(&mut ctx, true),
        "
{
    ⟪ID|1111⟫: [
        ⟪ID|2222⟫,
        ⟪ID|5555⟫,
    ],
    ⟪ID|2222⟫: [
        ⟪ID|3333⟫,
        ⟪ID|6666⟫,
    ],
    ⟪ID|3333⟫: [
        ⟪ID|4444⟫,
        ⟪ID|7777⟫,
    ],
}
            "
        .trim()
    );
}
