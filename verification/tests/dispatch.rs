use luadoc::alias::Alias;
use luadoc::alias::AliasKind;
use luadoc::class::Class;
use luadoc::parser::Prefix;
use luadoc::parser::See;
use luadoc::token::Ty;
use luadoc::visitor::Accept;
use luadoc::visitor::Visitor;

struct KindNamer;

impl Visitor for KindNamer {
    type S = String;
    type R = String;

    fn alias(&self, n: &Alias, s: &Self::S) -> Self::R {
        format!("{}alias:{}", s, n.name)
    }

    fn class(&self, n: &Class, s: &Self::S) -> Self::R {
        format!("{}class:{}", s, n.name)
    }
}

#[test]
fn accept_dispatches_to_matching_handler() {
    let a = Alias {
        name: "A".to_string(),
        desc: Vec::new(),
        kind: AliasKind::Type(Ty::Nil),
        prefix: Prefix::default(),
    };
    let c = Class {
        name: "C".to_string(),
        parent: None,
        desc: Vec::new(),
        fields: Vec::new(),
        see: See { refs: Vec::new() },
        prefix: Prefix::default(),
    };
    let v = KindNamer;
    let ctx = "got ".to_string();
    assert_eq!(a.accept(&v, &ctx), "got alias:A");
    assert_eq!(c.accept(&v, &ctx), "got class:C");
}
