use luadoc::token::Kind;
use luadoc::token::Ty;
use luadoc::token::TypeVal;

#[test]
fn renders_atoms() {
    assert_eq!(Ty::Nil.render(), "nil");
    assert_eq!(Ty::Any.render(), "any");
    assert_eq!(Ty::Unknown.render(), "unknown");
    assert_eq!(Ty::Boolean.render(), "boolean");
    assert_eq!(Ty::String.render(), "string");
    assert_eq!(Ty::Number.render(), "number");
    assert_eq!(Ty::Integer.render(), "integer");
    assert_eq!(Ty::Function.render(), "function");
    assert_eq!(Ty::Thread.render(), "thread");
    assert_eq!(Ty::Userdata.render(), "userdata");
    assert_eq!(Ty::Lightuserdata.render(), "lightuserdata");
}

#[test]
fn renders_reference_by_name() {
    assert_eq!(Ty::Ref("Config".to_string()).render(), "Config");
}

#[test]
fn renders_array_of_element() {
    assert_eq!(Ty::Array(Box::new(Ty::Number)).render(), "number[]");
    let nested = Ty::Array(Box::new(Ty::Array(Box::new(Ty::String))));
    assert_eq!(nested.render(), "string[][]");
}

#[test]
fn renders_table_forms() {
    assert_eq!(Ty::Table(None).render(), "table");
    let kv = Ty::Table(Some((Box::new(Ty::String), Box::new(Ty::Number))));
    assert_eq!(kv.render(), "table<string,number>");
}

#[test]
fn renders_function_signature() {
    let f = Ty::Fun(
        vec![
            TypeVal::Req("a".to_string(), Ty::String),
            TypeVal::Opt("b".to_string(), Ty::Number),
        ],
        None,
    );
    assert_eq!(f.render(), "fun(a:string,b?:number)");
}

#[test]
fn renders_function_with_returns() {
    let f = Ty::Fun(
        vec![TypeVal::Req("x".to_string(), Ty::Integer)],
        Some(vec![Ty::Boolean, Ty::Nil]),
    );
    assert_eq!(f.render(), "fun(x:integer):boolean,nil");
    let g = Ty::Fun(vec![], Some(vec![Ty::String]));
    assert_eq!(g.render(), "fun():string");
}

#[test]
fn renders_dict_entries_in_order() {
    let d = Ty::Dict(vec![
        TypeVal::Req("a".to_string(), Ty::String),
        TypeVal::Opt("b".to_string(), Ty::Number),
    ]);
    assert_eq!(d.render(), "{a:string,b?:number}");
    assert_eq!(Ty::Dict(vec![]).render(), "{}");
}

#[test]
fn renders_union_in_operand_order() {
    let ab = Ty::Union(
        Box::new(Ty::Ref("A".to_string())),
        Box::new(Ty::Ref("B".to_string())),
    );
    assert_eq!(ab.render(), "A|B");
    let ba = Ty::Union(
        Box::new(Ty::Ref("B".to_string())),
        Box::new(Ty::Ref("A".to_string())),
    );
    assert_eq!(ba.render(), "B|A");
    assert_ne!(ab.render(), ba.render());
}

#[test]
fn rendering_twice_is_identical() {
    let t = Ty::Union(
        Box::new(Ty::Table(Some((Box::new(Ty::String), Box::new(Ty::Ref("V".to_string())))))),
        Box::new(Ty::Fun(
            vec![TypeVal::Opt("n".to_string(), Ty::Integer)],
            Some(vec![Ty::Array(Box::new(Ty::Boolean))]),
        )),
    );
    let first = t.render();
    let second = t.render();
    assert_eq!(first, second);
    assert_eq!(first, "table<string,V>|fun(n?:integer):boolean[]");
}

#[test]
fn renders_typeval_forms() {
    assert_eq!(TypeVal::Req("k".to_string(), Ty::Integer).render(), "k:integer");
    assert_eq!(TypeVal::Opt("k".to_string(), Ty::Integer).render(), "k?:integer");
}

#[test]
fn clone_preserves_rendering() {
    let t = Ty::Dict(vec![TypeVal::Req("p".to_string(), Ty::Union(
        Box::new(Ty::Nil),
        Box::new(Ty::String),
    ))]);
    let c = t.clone();
    assert_eq!(t, c);
    assert_eq!(c.render(), "{p:nil|string}");
}

#[test]
fn kind_marks_declaration_style() {
    assert_eq!(Kind::Dot.as_char(), '.');
    assert_eq!(Kind::Colon.as_char(), ':');
    assert_eq!(Kind::Local.as_char(), '#');
}
