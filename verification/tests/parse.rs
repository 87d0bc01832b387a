use luadoc::Decl;
use luadoc::alias::Alias;
use luadoc::alias::AliasKind;
use luadoc::class::Class;
use luadoc::class::Field;
use luadoc::parse_declarations;
use luadoc::parser::Prefix;
use luadoc::parser::See;
use luadoc::token::Scope;
use luadoc::token::TagType;
use luadoc::token::Ty;

fn comment(s: &str) -> TagType {
    TagType::Comment(s.to_string())
}

#[test]
fn field_inline_description_comes_first() {
    let tags = vec![
        comment("c1"),
        comment("c2"),
        TagType::Field {
            scope: Scope::Public,
            name: "speed".to_string(),
            ty: Ty::Number,
            desc: Some("D".to_string()),
        },
    ];
    let (f, end) = Field::parse(&tags, 0).expect("field should match");
    assert_eq!(end, 3);
    assert_eq!(f.desc, vec!["D".to_string(), "c1".to_string(), "c2".to_string()]);
    assert_eq!(f.name, "speed");
    assert_eq!(f.ty, Ty::Number);
    assert_eq!(f.scope, Scope::Public);
}

#[test]
fn field_without_inline_keeps_comment_lines() {
    let tags = vec![
        comment("c1"),
        comment("c2"),
        TagType::Field {
            scope: Scope::Private,
            name: "speed".to_string(),
            ty: Ty::Integer,
            desc: None,
        },
    ];
    let (f, end) = Field::parse(&tags, 0).expect("field should match");
    assert_eq!(end, 3);
    assert_eq!(f.desc, vec!["c1".to_string(), "c2".to_string()]);
}

#[test]
fn field_fails_without_consuming() {
    let tags = vec![comment("c"), TagType::Class("Foo".to_string(), None)];
    assert!(Field::parse(&tags, 0).is_none());
    assert!(Field::parse(&tags, 2).is_none());
}

#[test]
fn class_scenario_with_field_and_see() {
    let tags = vec![
        comment("x"),
        TagType::Class("Foo".to_string(), None),
        TagType::Field {
            scope: Scope::Public,
            name: "a".to_string(),
            ty: Ty::Number,
            desc: None,
        },
        TagType::See("bar".to_string()),
    ];
    let (c, end) = Class::parse(&tags, 0).expect("class should match");
    assert_eq!(end, 4);
    assert_eq!(c.name, "Foo");
    assert_eq!(c.parent, None);
    assert_eq!(c.desc, vec!["x".to_string()]);
    assert_eq!(c.fields.len(), 1);
    assert_eq!(c.fields[0].name, "a");
    assert_eq!(c.fields[0].ty, Ty::Number);
    assert!(c.fields[0].desc.is_empty());
    assert_eq!(c.see.refs, vec!["bar".to_string()]);
    assert_eq!(c.prefix, Prefix { left: None, right: None });
}

#[test]
fn class_stops_at_first_unrelated_tag() {
    let tags = vec![
        TagType::Class("Foo".to_string(), Some("Base".to_string())),
        comment("about a"),
        TagType::Field {
            scope: Scope::Protected,
            name: "a".to_string(),
            ty: Ty::String,
            desc: None,
        },
        TagType::Divider('-'),
        TagType::See("later".to_string()),
    ];
    let (c, end) = Class::parse(&tags, 0).expect("class should match");
    assert_eq!(end, 3);
    assert_eq!(c.parent, Some("Base".to_string()));
    assert_eq!(c.fields.len(), 1);
    assert_eq!(c.fields[0].desc, vec!["about a".to_string()]);
    assert!(c.see.refs.is_empty());
}

#[test]
fn class_fails_without_class_tag() {
    let tags = vec![comment("x"), TagType::Alias("A".to_string(), None)];
    assert!(Class::parse(&tags, 0).is_none());
}

#[test]
fn typed_alias_never_consumes_variants() {
    let tags = vec![
        TagType::Alias("Speed".to_string(), Some(Ty::Number)),
        TagType::Variant("fast".to_string(), None),
        TagType::Variant("slow".to_string(), None),
    ];
    let (a, end) = Alias::parse(&tags, 0).expect("alias should match");
    assert_eq!(end, 1);
    assert_eq!(a.name, "Speed");
    assert_eq!(a.kind, AliasKind::Type(Ty::Number));
}

#[test]
fn bare_alias_collects_variants_in_order() {
    let tags = vec![
        comment("colors"),
        TagType::Alias("Color".to_string(), None),
        TagType::Variant("red".to_string(), Some("warm".to_string())),
        TagType::Variant("blue".to_string(), None),
        TagType::See("elsewhere".to_string()),
    ];
    let (a, end) = Alias::parse(&tags, 0).expect("alias should match");
    assert_eq!(end, 4);
    assert_eq!(a.desc, vec!["colors".to_string()]);
    assert_eq!(
        a.kind,
        AliasKind::Enum(vec![
            ("red".to_string(), Some("warm".to_string())),
            ("blue".to_string(), None),
        ])
    );
}

#[test]
fn alias_fails_without_alias_tag() {
    let tags = vec![TagType::Variant("red".to_string(), None)];
    assert!(Alias::parse(&tags, 0).is_none());
}

#[test]
fn unrelated_tag_does_not_abort_parsing() {
    let tags = vec![
        TagType::Divider('-'),
        TagType::Class("Foo".to_string(), None),
        TagType::Skip,
        TagType::Alias("A".to_string(), Some(Ty::String)),
    ];
    let decls = parse_declarations(&tags);
    assert_eq!(decls.len(), 2);
    match &decls[0] {
        Decl::Class(c) => assert_eq!(c.name, "Foo"),
        other => panic!("expected a class first, got {:?}", other),
    }
    match &decls[1] {
        Decl::Alias(a) => assert_eq!(a.name, "A"),
        other => panic!("expected an alias second, got {:?}", other),
    }
}

#[test]
fn empty_tag_sequence_yields_no_declarations() {
    let tags: Vec<TagType> = Vec::new();
    assert!(parse_declarations(&tags).is_empty());
}

#[test]
fn comments_claimed_by_following_declaration() {
    let tags = vec![
        comment("about"),
        TagType::Alias("A".to_string(), None),
        TagType::Variant("v".to_string(), None),
    ];
    let decls = parse_declarations(&tags);
    assert_eq!(decls.len(), 1);
    match &decls[0] {
        Decl::Alias(a) => {
            assert_eq!(a.desc, vec!["about".to_string()]);
            assert_eq!(a.kind, AliasKind::Enum(vec![("v".to_string(), None)]));
        },
        other => panic!("expected an alias, got {:?}", other),
    }
}

#[test]
fn see_parse_never_fails() {
    let tags = vec![TagType::Skip];
    let (see, end) = See::parse(&tags, 0);
    assert!(see.refs.is_empty());
    assert_eq!(end, 0);
    let tags2 = vec![
        TagType::See("one".to_string()),
        TagType::See("two".to_string()),
        TagType::Skip,
    ];
    let (see2, end2) = See::parse(&tags2, 0);
    assert_eq!(see2.refs, vec!["one".to_string(), "two".to_string()]);
    assert_eq!(end2, 2);
}

#[test]
fn prefix_rename_replaces_right_slot_only() {
    let mut p = Prefix::default();
    assert_eq!(p.left, None);
    assert_eq!(p.right, None);
    p.left = Some("mod".to_string());
    p.rename("display".to_string());
    assert_eq!(p.left, Some("mod".to_string()));
    assert_eq!(p.right, Some("display".to_string()));
}
