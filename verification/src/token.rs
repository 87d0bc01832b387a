//! The tag model: one variant per recognized annotation kind, and the
//! recursive type-expression model with its canonical text rendering.
use vstd::prelude::*;
use vstd::string::StringExecFns;

verus! {

/// How a function or value was declared in source: dotted access (`a.b`),
/// method-style access (`a:b`), or local scope (`local a`).
#[derive(Debug, Clone, Copy, PartialEq, Eq, Hash)]
pub enum Kind {
    Dot,
    Colon,
    Local,
}

/// The character that marks each declaration style in rendered output.
pub open spec fn kind_char(k: Kind) -> char {
    match k {
        Kind::Dot => '.',
        Kind::Colon => ':',
        Kind::Local => '#',
    }
}

impl Kind {
    pub fn as_char(&self) -> (c: char)
        ensures
            c == kind_char(*self),
    {
        match self {
            Self::Dot => '.',
            Self::Colon => ':',
            Self::Local => '#',
        }
    }
}

/// Visibility of a class field.
#[derive(Debug, Clone, Copy, PartialEq, Eq, Hash)]
pub enum Scope {
    Public,
    Private,
    Protected,
}

/// A named parameter or dictionary entry: required (`name:type`) or
/// optional (`name?:type`).
#[derive(Debug, PartialEq, Eq, Hash)]
pub enum TypeVal {
    Req(String, Ty),
    Opt(String, Ty),
}

/// A Lua type annotation: atoms, references to declared names, and the
/// recursive forms (arrays, tables, function signatures, inline
/// dictionaries, unions).
#[derive(Debug, PartialEq, Eq, Hash)]
pub enum Ty {
    Nil,
    Any,
    Unknown,
    Boolean,
    String,
    Number,
    Integer,
    Function,
    Thread,
    Userdata,
    Lightuserdata,
    Ref(String),
    Array(Box<Ty>),
    Table(Option<(Box<Ty>, Box<Ty>)>),
    Fun(Vec<TypeVal>, Option<Vec<Ty>>),
    Dict(Vec<TypeVal>),
    Union(Box<Ty>, Box<Ty>),
}

/// One classified documentation annotation, as produced by the tokenizing
/// front end. Each variant carries the payload of one recognized
/// annotation line; `Skip` stands for text nodes that no rule needs.
#[derive(Debug, PartialEq, Eq, Hash)]
#[allow(inconsistent_fields)]
pub enum TagType {
    /// `---@toc <name>`
    Toc(String),
    /// `---@mod <name> [desc]`
    Module(String, Option<String>),
    /// `---@divider <char>`
    Divider(char),
    /// `function one.two() end` or `one.two = function() end`
    Func { prefix: Option<String>, name: String, kind: Kind },
    /// `one = 1` or `one.two = 12`
    Expr { prefix: Option<String>, name: String, kind: Kind },
    /// `---@export <module>`
    Export(String),
    /// `---@brief [[`
    BriefStart,
    /// `---@brief ]]`
    BriefEnd,
    /// `---@param <name[?]> <type> [description]`
    Param(TypeVal, Option<String>),
    /// `---@return <type> [<name>] [comment]`
    Return { ty: Ty, name: Option<String>, desc: Option<String> },
    /// `---@class <name>[: <parent>]`
    Class(String, Option<String>),
    /// `---@field [scope] <name> <type> [description]`
    Field { scope: Scope, name: String, ty: Ty, desc: Option<String> },
    /// `---@alias <name> [type]`
    Alias(String, Option<Ty>),
    /// `---| '<value>' [# description]`
    Variant(String, Option<String>),
    /// `---@type <type> [desc]`
    Type(Ty, Option<String>),
    /// `---@tag <name>`
    Tag(String),
    /// `---@see <name>`
    See(String),
    /// ```---@usage `<code>` ```
    Usage(String),
    /// `---@usage [[`
    UsageStart,
    /// `---@usage ]]`
    UsageEnd,
    /// `---TEXT`
    Comment(String),
    /// A text node that nothing needs.
    Skip,
}

/// Mathematical model of a `TypeVal`: the name as a character sequence.
#[verifier::ext_equal]
pub enum TypeValModel {
    Req(Seq<char>, TyModel),
    Opt(Seq<char>, TyModel),
}

/// Mathematical model of a `Ty`: strings become character sequences and
/// vectors become sequences, so that contracts can state structural facts.
#[verifier::ext_equal]
pub enum TyModel {
    Nil,
    Any,
    Unknown,
    Boolean,
    String,
    Number,
    Integer,
    Function,
    Thread,
    Userdata,
    Lightuserdata,
    Ref(Seq<char>),
    Array(Box<TyModel>),
    Table(Option<(Box<TyModel>, Box<TyModel>)>),
    Fun(Seq<TypeValModel>, Option<Seq<TyModel>>),
    Dict(Seq<TypeValModel>),
    Union(Box<TyModel>, Box<TyModel>),
}

/// The model of one type value.
pub open spec fn typeval_model(tv: TypeVal) -> TypeValModel
    decreases tv,
{
    match tv {
        TypeVal::Req(n, t) => TypeValModel::Req(n@, ty_model(t)),
        TypeVal::Opt(n, t) => TypeValModel::Opt(n@, ty_model(t)),
    }
}

/// The models of a sequence of type values, element by element.
pub open spec fn typevals_model(s: Seq<TypeVal>) -> Seq<TypeValModel>
    decreases s,
{
    if s.len() == 0 {
        Seq::empty()
    } else {
        seq![typeval_model(s[0])] + typevals_model(s.subrange(1, s.len() as int))
    }
}

/// The models of a sequence of types, element by element.
pub open spec fn tys_model(s: Seq<Ty>) -> Seq<TyModel>
    decreases s,
{
    if s.len() == 0 {
        Seq::empty()
    } else {
        seq![ty_model(s[0])] + tys_model(s.subrange(1, s.len() as int))
    }
}

/// The model of a type-value sequence is its elementwise model.
pub proof fn lemma_typevals_model(s: Seq<TypeVal>)
    ensures
        typevals_model(s).len() == s.len(),
        forall|i: int| 0 <= i < s.len() ==> typevals_model(s)[i] == typeval_model(s[i]),
    decreases s.len(),
{
    if s.len() > 0 {
        lemma_typevals_model(s.subrange(1, s.len() as int));
    }
}

/// The model of a type sequence is its elementwise model.
pub proof fn lemma_tys_model(s: Seq<Ty>)
    ensures
        tys_model(s).len() == s.len(),
        forall|i: int| 0 <= i < s.len() ==> tys_model(s)[i] == ty_model(s[i]),
    decreases s.len(),
{
    if s.len() > 0 {
        lemma_tys_model(s.subrange(1, s.len() as int));
    }
}

/// The model of one type expression.
pub open spec fn ty_model(t: Ty) -> TyModel
    decreases t,
{
    match t {
        Ty::Nil => TyModel::Nil,
        Ty::Any => TyModel::Any,
        Ty::Unknown => TyModel::Unknown,
        Ty::Boolean => TyModel::Boolean,
        Ty::String => TyModel::String,
        Ty::Number => TyModel::Number,
        Ty::Integer => TyModel::Integer,
        Ty::Function => TyModel::Function,
        Ty::Thread => TyModel::Thread,
        Ty::Userdata => TyModel::Userdata,
        Ty::Lightuserdata => TyModel::Lightuserdata,
        Ty::Ref(id) => TyModel::Ref(id@),
        Ty::Array(t0) => TyModel::Array(Box::new(ty_model(*t0))),
        Ty::Table(kv) => match kv {
            Some((k, v)) => TyModel::Table(Some((Box::new(ty_model(*k)), Box::new(ty_model(*v))))),
            None => TyModel::Table(None),
        },
        Ty::Fun(args, ret) => TyModel::Fun(
            typevals_model(args@),
            match ret {
                Some(rs) => Some(tys_model(rs@)),
                None => None,
            },
        ),
        Ty::Dict(kv) => TyModel::Dict(typevals_model(kv@)),
        Ty::Union(a, b) => TyModel::Union(Box::new(ty_model(*a)), Box::new(ty_model(*b))),
    }
}

/// Canonical text of one type value: `name:type` or `name?:type`.
pub open spec fn typeval_text(tv: TypeValModel) -> Seq<char>
    decreases tv,
{
    match tv {
        TypeValModel::Req(n, t) => n + ":"@ + ty_text(t),
        TypeValModel::Opt(n, t) => n + "?:"@ + ty_text(t),
    }
}

/// Canonical text of a comma-separated list of type values.
pub open spec fn typevals_text(s: Seq<TypeValModel>) -> Seq<char>
    decreases s,
{
    if s.len() == 0 {
        Seq::empty()
    } else if s.len() == 1 {
        typeval_text(s[0])
    } else {
        typeval_text(s[0]) + ","@ + typevals_text(s.subrange(1, s.len() as int))
    }
}

/// Canonical text of a comma-separated list of types.
pub open spec fn tys_text(s: Seq<TyModel>) -> Seq<char>
    decreases s,
{
    if s.len() == 0 {
        Seq::empty()
    } else if s.len() == 1 {
        ty_text(s[0])
    } else {
        ty_text(s[0]) + ","@ + tys_text(s.subrange(1, s.len() as int))
    }
}

/// Canonical text of a type expression, exactly as written in source
/// annotations: children first, left to right, fixed separators, no
/// added whitespace.
pub open spec fn ty_text(t: TyModel) -> Seq<char>
    decreases t,
{
    match t {
        TyModel::Nil => "nil"@,
        TyModel::Any => "any"@,
        TyModel::Unknown => "unknown"@,
        TyModel::Boolean => "boolean"@,
        TyModel::String => "string"@,
        TyModel::Number => "number"@,
        TyModel::Integer => "integer"@,
        TyModel::Function => "function"@,
        TyModel::Thread => "thread"@,
        TyModel::Userdata => "userdata"@,
        TyModel::Lightuserdata => "lightuserdata"@,
        TyModel::Ref(id) => id,
        TyModel::Array(t0) => ty_text(*t0) + "[]"@,
        TyModel::Table(kv) => match kv {
            Some((k, v)) => "table<"@ + ty_text(*k) + ","@ + ty_text(*v) + ">"@,
            None => "table"@,
        },
        TyModel::Fun(args, ret) => "fun("@ + typevals_text(args) + ")"@ + (match ret {
            Some(rs) => ":"@ + tys_text(rs),
            None => Seq::empty(),
        }),
        TyModel::Dict(kv) => "{"@ + typevals_text(kv) + "}"@,
        TyModel::Union(a, b) => ty_text(*a) + "|"@ + ty_text(*b),
    }
}

impl View for TypeVal {
    type V = TypeValModel;

    open spec fn view(&self) -> TypeValModel {
        typeval_model(*self)
    }
}

impl View for Ty {
    type V = TyModel;

    open spec fn view(&self) -> TyModel {
        ty_model(*self)
    }
}

/// Rendering is deterministic and pure: the canonical text is a function
/// of the type expression alone, so rendering the same expression twice
/// yields identical text.
pub proof fn lemma_render_deterministic(a: TyModel, b: TyModel)
    requires
        a == b,
    ensures
        ty_text(a) == ty_text(b),
{
}

/// A union renders its operands in construction order: `Union(A, B)`
/// yields the text of `A`, then `|`, then the text of `B` — never the
/// reverse order.
pub proof fn lemma_union_renders_in_order(a: Box<TyModel>, b: Box<TyModel>)
    ensures
        ty_text(TyModel::Union(a, b)) == ty_text(*a) + "|"@ + ty_text(*b),
{
}

/// Models are preserved elementwise: two type-value sequences with equal
/// elementwise models have equal models.
pub proof fn lemma_typevals_model_congruence(a: Seq<TypeVal>, b: Seq<TypeVal>)
    requires
        a.len() == b.len(),
        forall|i: int| 0 <= i < a.len() ==> typeval_model(a[i]) == typeval_model(b[i]),
    ensures
        typevals_model(a) == typevals_model(b),
{
    lemma_typevals_model(a);
    lemma_typevals_model(b);
    assert(typevals_model(a) =~= typevals_model(b));
}

/// Models are preserved elementwise: two type sequences with equal
/// elementwise models have equal models.
pub proof fn lemma_tys_model_congruence(a: Seq<Ty>, b: Seq<Ty>)
    requires
        a.len() == b.len(),
        forall|i: int| 0 <= i < a.len() ==> ty_model(a[i]) == ty_model(b[i]),
    ensures
        tys_model(a) == tys_model(b),
{
    lemma_tys_model(a);
    lemma_tys_model(b);
    assert(tys_model(a) =~= tys_model(b));
}

impl Clone for TypeVal {
    /// A deep copy with the same model.
    fn clone(&self) -> (res: Self)
        ensures
            res@ == self@,
        decreases *self,
    {
        match self {
            TypeVal::Req(n, t) => TypeVal::Req(n.clone(), t.clone()),
            TypeVal::Opt(n, t) => TypeVal::Opt(n.clone(), t.clone()),
        }
    }
}

impl Clone for Ty {
    /// A deep copy with the same model.
    fn clone(&self) -> (res: Self)
        ensures
            res@ == self@,
        decreases *self,
    {
        match self {
            Ty::Nil => Ty::Nil,
            Ty::Any => Ty::Any,
            Ty::Unknown => Ty::Unknown,
            Ty::Boolean => Ty::Boolean,
            Ty::String => Ty::String,
            Ty::Number => Ty::Number,
            Ty::Integer => Ty::Integer,
            Ty::Function => Ty::Function,
            Ty::Thread => Ty::Thread,
            Ty::Userdata => Ty::Userdata,
            Ty::Lightuserdata => Ty::Lightuserdata,
            Ty::Ref(id) => Ty::Ref(id.clone()),
            Ty::Array(t0) => Ty::Array(Box::new((**t0).clone())),
            Ty::Table(kv) => match kv {
                Some((k, v)) => Ty::Table(
                    Some((Box::new((**k).clone()), Box::new((**v).clone()))),
                ),
                None => Ty::Table(None),
            },
            Ty::Fun(args, ret) => {
                let args2 = clone_typevals(args);
                let ret2 = match ret {
                    Some(rs) => Some(clone_tys(rs)),
                    None => None,
                };
                Ty::Fun(args2, ret2)
            },
            Ty::Dict(kv) => Ty::Dict(clone_typevals(kv)),
            Ty::Union(a, b) => Ty::Union(
                Box::new((**a).clone()),
                Box::new((**b).clone()),
            ),
        }
    }
}

/// Clones a vector of type values, preserving the model.
fn clone_typevals(vs: &Vec<TypeVal>) -> (r: Vec<TypeVal>)
    ensures
        typevals_model(r@) == typevals_model(vs@),
        r@.len() == vs@.len(),
    decreases vs@,
{
    let mut r: Vec<TypeVal> = Vec::new();
    let mut i: usize = 0;
    while i < vs.len()
        invariant
            i <= vs@.len(),
            r@.len() == i,
            forall|j: int| 0 <= j < i ==> typeval_model(r@[j]) == typeval_model(vs@[j]),
        decreases vs@.len() - i,
    {
        r.push(vs[i].clone());
        i = i + 1;
    }
    proof {
        lemma_typevals_model_congruence(r@, vs@);
    }
    r
}

/// Clones a vector of types, preserving the model.
fn clone_tys(vs: &Vec<Ty>) -> (r: Vec<Ty>)
    ensures
        tys_model(r@) == tys_model(vs@),
        r@.len() == vs@.len(),
    decreases vs@,
{
    let mut r: Vec<Ty> = Vec::new();
    let mut i: usize = 0;
    while i < vs.len()
        invariant
            i <= vs@.len(),
            r@.len() == i,
            forall|j: int| 0 <= j < i ==> ty_model(r@[j]) == ty_model(vs@[j]),
        decreases vs@.len() - i,
    {
        r.push(vs[i].clone());
        i = i + 1;
    }
    proof {
        lemma_tys_model_congruence(r@, vs@);
    }
    r
}

/// Renders `vs[i..]` as a comma-separated list.
fn render_typevals(vs: &Vec<TypeVal>, i: usize) -> (r: String)
    requires
        i <= vs@.len(),
    ensures
        r@ == typevals_text(typevals_model(vs@.subrange(i as int, vs@.len() as int))),
    decreases vs@, vs@.len() - i,
{
    let ghost sub = vs@.subrange(i as int, vs@.len() as int);
    if i == vs.len() {
        assert(typevals_model(sub) =~= Seq::empty());
        String::new()
    } else {
        let mut s = vs[i].render();
        proof {
            assert(sub[0] == vs@[i as int]);
            assert(sub.subrange(1, sub.len() as int) =~= vs@.subrange(
                i as int + 1,
                vs@.len() as int,
            ));
            lemma_typevals_model(sub);
        }
        if i + 1 < vs.len() {
            s.append(",");
            let rest = render_typevals(vs, i + 1);
            s.append(rest.as_str());
            proof {
                lemma_typevals_model(sub);
                assert(typevals_model(sub).subrange(1, typevals_model(sub).len() as int)
                    =~= typevals_model(sub.subrange(1, sub.len() as int))) by {
                    lemma_typevals_model(sub.subrange(1, sub.len() as int));
                }
            }
            assert(s@ =~= typevals_text(typevals_model(sub)));
        } else {
            assert(typevals_model(sub).len() == 1) by {
                lemma_typevals_model(sub);
            }
            assert(s@ =~= typevals_text(typevals_model(sub)));
        }
        s
    }
}

/// Renders `vs[i..]` as a comma-separated list.
fn render_tys(vs: &Vec<Ty>, i: usize) -> (r: String)
    requires
        i <= vs@.len(),
    ensures
        r@ == tys_text(tys_model(vs@.subrange(i as int, vs@.len() as int))),
    decreases vs@, vs@.len() - i,
{
    let ghost sub = vs@.subrange(i as int, vs@.len() as int);
    if i == vs.len() {
        assert(tys_model(sub) =~= Seq::empty());
        String::new()
    } else {
        let mut s = vs[i].render();
        proof {
            assert(sub[0] == vs@[i as int]);
            assert(sub.subrange(1, sub.len() as int) =~= vs@.subrange(
                i as int + 1,
                vs@.len() as int,
            ));
            lemma_tys_model(sub);
        }
        if i + 1 < vs.len() {
            s.append(",");
            let rest = render_tys(vs, i + 1);
            s.append(rest.as_str());
            proof {
                lemma_tys_model(sub);
                assert(tys_model(sub).subrange(1, tys_model(sub).len() as int)
                    =~= tys_model(sub.subrange(1, sub.len() as int))) by {
                    lemma_tys_model(sub.subrange(1, sub.len() as int));
                }
            }
            assert(s@ =~= tys_text(tys_model(sub)));
        } else {
            assert(tys_model(sub).len() == 1) by {
                lemma_tys_model(sub);
            }
            assert(s@ =~= tys_text(tys_model(sub)));
        }
        s
    }
}

impl TypeVal {
    /// Canonical text of this entry: `name:type` or `name?:type`.
    pub fn render(&self) -> (r: String)
        ensures
            r@ == typeval_text(self@),
        decreases *self,
    {
        match self {
            TypeVal::Req(n, t) => {
                let mut s = n.clone();
                s.append(":");
                let tr = t.render();
                s.append(tr.as_str());
                s
            },
            TypeVal::Opt(n, t) => {
                let mut s = n.clone();
                s.append("?:");
                let tr = t.render();
                s.append(tr.as_str());
                s
            },
        }
    }
}

impl Ty {
    /// Canonical text of this type expression, identical to the source
    /// annotation form: `table<K,V>`, `fun(a:T,b?:U):R`, `A|B`, and so on.
    pub fn render(&self) -> (r: String)
        ensures
            r@ == ty_text(self@),
        decreases *self,
    {
        match self {
            Ty::Nil => "nil".to_owned(),
            Ty::Any => "any".to_owned(),
            Ty::Unknown => "unknown".to_owned(),
            Ty::Boolean => "boolean".to_owned(),
            Ty::String => "string".to_owned(),
            Ty::Number => "number".to_owned(),
            Ty::Integer => "integer".to_owned(),
            Ty::Function => "function".to_owned(),
            Ty::Thread => "thread".to_owned(),
            Ty::Userdata => "userdata".to_owned(),
            Ty::Lightuserdata => "lightuserdata".to_owned(),
            Ty::Ref(id) => id.clone(),
            Ty::Array(t0) => {
                let mut s = t0.render();
                s.append("[]");
                s
            },
            Ty::Table(kv) => match kv {
                Some((k, v)) => {
                    let mut s = "table<".to_owned();
                    let kr = k.render();
                    s.append(kr.as_str());
                    s.append(",");
                    let vr = v.render();
                    s.append(vr.as_str());
                    s.append(">");
                    s
                },
                None => "table".to_owned(),
            },
            Ty::Fun(args, ret) => {
                let mut s = "fun(".to_owned();
                let list = render_typevals(args, 0);
                s.append(list.as_str());
                s.append(")");
                proof {
                    assert(args@.subrange(0, args@.len() as int) =~= args@);
                }
                match ret {
                    Some(rs) => {
                        s.append(":");
                        let list2 = render_tys(rs, 0);
                        s.append(list2.as_str());
                        proof {
                            assert(rs@.subrange(0, rs@.len() as int) =~= rs@);
                        }
                    },
                    None => {},
                }
                s
            },
            Ty::Dict(kv) => {
                let mut s = "{".to_owned();
                let list = render_typevals(kv, 0);
                s.append(list.as_str());
                s.append("}");
                proof {
                    assert(kv@.subrange(0, kv@.len() as int) =~= kv@);
                }
                s
            },
            Ty::Union(a, b) => {
                let mut s = a.render();
                s.append("|");
                let br = b.render();
                s.append(br.as_str());
                s
            },
        }
    }
}

} // verus!
