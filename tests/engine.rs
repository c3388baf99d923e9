use std::fmt::Display;

use named_id::{
    apply_matches, assert_prefix_unique, bracketed, collect_members, pretty_pattern, reindent,
    rename_text, replace_all_literal, substitute, AliasedId, AnyNameable, Event, Hex, Member,
    Name, NameContext, NameKind, Nameable, Num, Rename, Shortener, ShortId,
};

#[derive(Debug, Clone, PartialEq, Eq, PartialOrd, Ord, Hash)]
struct Id(u64);

impl Display for Id {
    fn fmt(&self, f: &mut std::fmt::Formatter<'_>) -> std::fmt::Result {
        f.write_str(&self.0.to_string())
    }
}

impl Nameable for Id {
    fn shortener(&self) -> Option<Shortener> {
        Some(Shortener {
            length: 4,
            prefix: "ID",
        })
    }
}

#[derive(Debug, Clone, PartialEq, Eq)]
struct Plain(u32);

impl Display for Plain {
    fn fmt(&self, f: &mut std::fmt::Formatter<'_>) -> std::fmt::Result {
        f.write_str(&self.0.to_string())
    }
}

impl Nameable for Plain {
    fn shortener(&self) -> Option<Shortener> {
        None
    }
}

const ID4: Shortener = Shortener {
    length: 4,
    prefix: "ID",
};

fn collisions(ctx: &mut NameContext) -> usize {
    ctx.take_events()
        .iter()
        .filter(|e| matches!(e, Event::ShortCollision { .. }))
        .count()
}

#[test]
fn shortening_twice_gives_the_same_fragment_and_no_collision() {
    let mut ctx = NameContext::new();
    assert_eq!(ID4.shorten(&mut ctx, "1234567"), "ID|1234");
    assert_eq!(ID4.shorten(&mut ctx, "7654321"), "ID|7654");
    assert_eq!(ID4.shorten(&mut ctx, "1234567"), "ID|1234");
    assert_eq!(collisions(&mut ctx), 0);
}

#[test]
fn shortening_keeps_the_first_characters_after_the_tag() {
    let mut ctx = NameContext::new();
    assert_eq!(ID4.shorten(&mut ctx, "12"), "ID|12");
    assert_eq!(ID4.shorten(&mut ctx, "abcdef"), "ID|abcd");
    let x = Shortener {
        length: 2,
        prefix: "X",
    };
    assert_eq!(x.shorten(&mut ctx, "⟪⟫⟪"), "X|⟪⟫");
    assert_eq!(x.truncate("⟪⟫⟪"), "⟪⟫");
}

#[test]
fn shortening_nothing_uses_the_sentinel_bar() {
    let mut ctx = NameContext::new();
    assert_eq!(ID4.shorten(&mut ctx, ""), "ID‖");
    let zero = Shortener {
        length: 0,
        prefix: "Z",
    };
    assert_eq!(zero.shorten(&mut ctx, "123"), "Z‖");
}

#[test]
fn shortening_two_texts_with_a_common_start_reports_a_collision() {
    let mut ctx = NameContext::new();
    ID4.shorten(&mut ctx, "1234567890");
    assert_eq!(collisions(&mut ctx), 0);
    ID4.shorten(&mut ctx, "12349876");
    let events = ctx.take_events();
    assert_eq!(events.len(), 1);
    match &events[0] {
        Event::ShortCollision { fragment, earlier, original } => {
            assert_eq!(fragment, "ID|1234");
            assert_eq!(earlier, "1234567890");
            assert_eq!(original, "12349876");
        }
        _ => panic!("expected a collision"),
    }
}

#[test]
fn names_only_become_more_specific() {
    let mut ctx = NameContext::new();
    let id = Id(1234567890).with_serial(&mut ctx);
    assert_eq!(id.clone().renamed().render(&mut ctx, false), "⟪ID|#000⟫");
    let id = id.with_short(&mut ctx);
    assert_eq!(id.clone().renamed().render(&mut ctx, false), "⟪ID|1234⟫");
    let id = id.with_name(&mut ctx, "foo");
    assert_eq!(id.clone().renamed().render(&mut ctx, false), "⟪ID|foo⟫");
    let id = id.with_name_and_short(&mut ctx, "bar");
    assert_eq!(id.clone().renamed().render(&mut ctx, false), "⟪ID|1234|bar⟫");
    // Less specific requests change nothing.
    let id = id.with_short(&mut ctx).with_name(&mut ctx, "baz").with_serial(&mut ctx);
    assert_eq!(id.renamed().render(&mut ctx, false), "⟪ID|1234|bar⟫");
}

#[test]
fn registering_reports_set_replaced_and_kept() {
    let mut ctx = NameContext::new();
    ctx.take_events();
    let name = |kind: NameKind| Name {
        prefix: Some("ID"),
        kind,
        brackets: ("<", ">"),
    };
    ctx.set_name("k", name(NameKind::Short("12".to_string())));
    ctx.set_name("k", name(NameKind::Short("12".to_string())));
    ctx.set_name("k", name(NameKind::Name("n".to_string())));
    ctx.set_name("k", name(NameKind::Serial(7)));
    let events = ctx.take_events();
    assert_eq!(events.len(), 3);
    assert!(matches!(events[0], Event::NameSet { .. }));
    assert!(matches!(events[1], Event::NameReplaced { .. }));
    assert!(matches!(events[2], Event::NameKept { .. }));
    assert_eq!(ctx.resolve("k").unwrap().render(), "<ID|n>");
    assert!(ctx.resolve("other").is_none());
}

#[test]
fn names_render_with_prefix_body_and_brackets() {
    let n = Name {
        prefix: None,
        kind: NameKind::NameShort {
            name: "foo".to_string(),
            short: "ab".to_string(),
        },
        brackets: ("[", "]"),
    };
    assert_eq!(n.render(), "[ab|foo]");
    let s = Name {
        prefix: Some("T"),
        kind: NameKind::Serial(1234),
        brackets: ("", ""),
    };
    assert_eq!(s.render(), "T|#1234");
    assert_eq!(NameKind::Serial(0).specificity(), 0);
    assert_eq!(NameKind::Short(String::new()).specificity(), 1);
    assert_eq!(NameKind::Name(String::new()).specificity(), 2);
    assert_eq!(
        NameKind::NameShort {
            name: String::new(),
            short: String::new()
        }
        .specificity(),
        3
    );
    assert_eq!(bracketed("x", ("(", ")")), "(x)");
}

#[test]
fn explicit_name_with_short_form_and_defaults() {
    let mut ctx = NameContext::new();
    let named = Id(1234567890).with_name_and_short(&mut ctx, "foo");
    assert_eq!(named.renamed().render(&mut ctx, false), "⟪ID|1234|foo⟫");
    assert_eq!(Id(987654321).renamed().render(&mut ctx, false), "⟪ID|9876⟫");
    assert_eq!(Plain(42).renamed().render(&mut ctx, false), "Plain(42)");
    let list = vec![Plain(1), Plain(2)];
    assert_eq!(list.renamed().render(&mut ctx, true), format!("{:#?}", vec![Plain(1), Plain(2)]));
    assert_eq!(Plain(3).renamed().render(&mut ctx, true), "Plain(\n    3,\n)");
    let p = Plain(7).with_name_and_short(&mut ctx, "seven");
    assert_eq!(p.renamed().render(&mut ctx, false), "⟪seven⟫");
}

#[test]
fn rendering_shows_every_name_and_no_raw_text() {
    let mut ctx = NameContext::new();
    let v = vec![
        Id(11111111).with_name(&mut ctx, "a"),
        Id(22222222).with_name(&mut ctx, "b"),
        Id(11111111),
    ];
    let out = v.renamed().render(&mut ctx, false);
    assert_eq!(out, "[⟪ID|a⟫, ⟪ID|b⟫, ⟪ID|a⟫]");
    assert_eq!(out.matches("⟪ID|a⟫").count(), 2);
    assert_eq!(out.matches("⟪ID|b⟫").count(), 1);
    assert!(!out.contains("Id("));
}

#[test]
fn rendering_text_without_leaves_changes_nothing() {
    let mut ctx = NameContext::new();
    let done = "[⟪ID|1111⟫, ⟪ID|2222⟫]";
    assert_eq!(rename_text(&mut ctx, done, &vec![], false), done);
    assert_eq!(rename_text(&mut ctx, done, &vec![], true), done);
    let absent = Id(99).as_leaf();
    assert_eq!(rename_text(&mut ctx, done, &vec![absent], false), done);
    let absent = Id(99).as_leaf();
    assert_eq!(rename_text(&mut ctx, done, &vec![absent], true), done);
}

#[test]
fn skipped_members_contribute_no_leaves() {
    let leaves = collect_members(vec![
        Member { skip: false, leaves: Id(1).nameables() },
        Member { skip: true, leaves: Id(2).nameables() },
        Member { skip: false, leaves: Id(3).nameables() },
    ]);
    assert_eq!(leaves.len(), 2);
    assert_eq!(leaves[0].key(), "Id(1)");
    assert_eq!(leaves[1].key(), "Id(3)");
    let mut ctx = NameContext::new();
    ctx.name_leaf(&leaves[0], "one");
    ctx.name_leaf(&Id(2).as_leaf(), "two");
    let text = rename_text(&mut ctx, "S { a: Id(1), b: Id(2), c: Id(3) }", &leaves, false);
    assert_eq!(text, "S { a: ⟪ID|one⟫, b: Id(2), c: ⟪ID|0003⟫ }".replace("0003", "3"));
}

#[test]
fn pretty_replacement_is_indented_as_the_match() {
    assert_eq!(reindent("a\nb", "    "), "    a\n    b");
    assert_eq!(reindent("one line", "  "), "  one line");
    let text = "x {\n        Id(\n            5,\n        ),\n}";
    let leaf = AnyNameable::from_parts(
        "Id(5)".to_string(),
        "Id(\n    5,\n)".to_string(),
        "5".to_string(),
        None,
        ("<", ">"),
    );
    assert_eq!(
        substitute(text, &leaf, "first\nsecond", true),
        "x {\n        first\n        second,\n}"
    );
    assert_eq!(substitute("a Id(5) b", &leaf, "five", false), "a five b");
}

#[test]
fn pretty_pattern_escapes_and_tolerates_indentation() {
    assert_eq!(pretty_pattern("Num(\n    1,\n)"), " *Num\\(\n *    1,\n *\\)");
    assert_eq!(pretty_pattern("a.b"), " *a\\.b");
}

#[test]
fn matches_are_spliced_in_order_and_bad_spans_change_nothing() {
    assert_eq!(apply_matches("ab  cd", &vec![(2, 5)], "X\nY"), "ab  X\n  Yd");
    assert_eq!(apply_matches("abcdef", &vec![(0, 1), (3, 4)], "-"), "-bc-ef");
    assert_eq!(apply_matches("abc", &vec![(2, 1)], "-"), "abc");
    assert_eq!(apply_matches("abc", &vec![(1, 9)], "-"), "abc");
    assert_eq!(apply_matches("abc", &vec![(1, 2), (0, 1)], "-"), "abc");
}

#[test]
fn literal_replacement_is_left_to_right_without_overlap() {
    assert_eq!(replace_all_literal("aaa", "aa", "b"), "ba");
    assert_eq!(replace_all_literal("abc", "", "x"), "xaxbxcx");
    assert_eq!(replace_all_literal("", "", "x"), "x");
    assert_eq!(replace_all_literal("a⟪b⟫a", "a", "⟪"), "⟪⟪b⟫⟪");
    assert_eq!(replace_all_literal("abc", "abcd", "x"), "abc");
}

#[test]
fn library_ids_have_their_debug_texts() {
    let n = Num(1234567890);
    let leaf = n.leaf();
    assert_eq!(leaf.key(), format!("{:?}", n));
    assert_eq!(leaf.pretty_text(), format!("{:#?}", n));
    assert_eq!(leaf.display_text(), "1234567890");
    let h = Hex([171; 32]);
    let leaf = h.leaf();
    assert_eq!(leaf.key(), format!("{:?}", h));
    assert_eq!(leaf.pretty_text(), format!("{:#?}", h));
    assert_eq!(leaf.display_text(), "ab".repeat(32));
}

#[test]
fn library_ids_render_their_short_forms() {
    let mut ctx = NameContext::new();
    let v = (Num::sh(&mut ctx, 11111111), Hex::sh(&mut ctx, 1), Num(22222222));
    assert_eq!(v.renamed().render(&mut ctx, false), "(⟪ID|1111⟫, ⟪X|0101⟫, ⟪ID|2222⟫)");
    let h = Hex::sh(&mut ctx, 255);
    assert_eq!(h.renamed().render(&mut ctx, true), "⟪X|ffff⟫");
}

#[test]
fn option_and_tuples_collect_in_order() {
    let some: Option<Id> = Some(Id(1));
    let none: Option<Id> = None;
    assert_eq!(some.nameables().len(), 1);
    assert_eq!(none.nameables().len(), 0);
    let t = (Id(1), 5u32, Id(2), "s", Id(3));
    let keys: Vec<String> = t.nameables().iter().map(|l| l.key().to_string()).collect();
    assert_eq!(keys, vec!["Id(1)", "Id(2)", "Id(3)"]);
}

#[derive(Debug)]
struct Tagged(u8);

impl ShortId for Tagged {
    fn to_short_string(&self) -> String {
        format!("{:02}", self.0)
    }

    fn prefix(&self) -> &'static str {
        "ID"
    }
}

#[derive(Debug)]
struct Other(u8);

impl ShortId for Other {
    fn to_short_string(&self) -> String {
        self.0.to_string()
    }

    fn prefix(&self) -> &'static str {
        "ID"
    }
}

#[derive(Debug)]
struct Hidden(u64);

impl ShortId for Hidden {
    fn to_short_string(&self) -> String {
        self.0.to_string()
    }

    fn prefix(&self) -> &'static str {
        "H"
    }
}

impl AliasedId for Hidden {
    fn show_short_id(&self) -> bool {
        false
    }
}

#[test]
fn a_tag_used_by_two_types_is_reported() {
    let mut ctx = NameContext::new();
    assert!(assert_prefix_unique(&mut ctx, &Tagged(1)));
    assert!(assert_prefix_unique(&mut ctx, &Tagged(2)));
    assert!(!assert_prefix_unique(&mut ctx, &Other(3)));
    assert_eq!(Tagged(5).short(&mut ctx), "ID|05");
    let clashes = ctx
        .take_events()
        .iter()
        .filter(|e| matches!(e, Event::PrefixClash { .. }))
        .count();
    assert_eq!(clashes, 2);
}

#[test]
fn aliases_replace_each_other_and_can_hide_the_short_form() {
    let mut ctx = NameContext::new();
    let a = Hidden(123456).with_alias(&mut ctx, "first");
    assert_eq!(a.render(&mut ctx, false), "⟪H‖first⟫");
    let a = Hidden(123456).with_alias(&mut ctx, "second");
    assert_eq!(a.render(&mut ctx, false), "⟪H‖second⟫");
    let replaced = ctx
        .take_events()
        .iter()
        .filter(|e| matches!(e, Event::AliasReplaced { .. }))
        .count();
    assert_eq!(replaced, 1);
    assert_eq!(Hidden(98765).default_alias(&mut ctx), "⟪H|9876⟫");
}

