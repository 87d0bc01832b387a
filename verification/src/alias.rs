//! The alias declaration rule: leading comments, then either an `Alias`
//! tag that already carries a resolved type, or a bare `Alias` tag
//! followed by the run of its enumerated `Variant` tags. The typed form
//! is decided first: an alias that carries a type never consumes any
//! `Variant` tag that follows it.
use vstd::prelude::*;

use crate::parser::Prefix;
use crate::parser::PrefixModel;
use crate::parser::empty_prefix;
use crate::parser::opt_text;
use crate::parser::texts_of;
use crate::parser::comments_end;
use crate::parser::comment_texts;
use crate::parser::collect_comments;
use crate::parser::clone_opt_string;
use crate::parser::alias_tag_name;
use crate::parser::alias_tag_ty;
use crate::parser::variant_value;
use crate::parser::variant_desc;
use crate::token::TagType;
use crate::token::Ty;
use crate::token::TyModel;

verus! {

/// Model of an alias body: a direct type alias, or the enumerated
/// string variants with their optional descriptions, in source order.
#[verifier::ext_equal]
pub enum AliasKindModel {
    Type(TyModel),
    Enum(Seq<(Seq<char>, Option<Seq<char>>)>),
}

/// The body of an alias declaration: either a resolved type, or an
/// enumeration of string literal variants.
#[derive(Debug, PartialEq, Eq, Hash)]
pub enum AliasKind {
    Type(Ty),
    Enum(Vec<(String, Option<String>)>),
}

/// The models of a sequence of enum variants, element by element.
pub open spec fn variants_of(s: Seq<(String, Option<String>)>) -> Seq<
    (Seq<char>, Option<Seq<char>>),
>
    decreases s.len(),
{
    if s.len() == 0 {
        Seq::empty()
    } else {
        variants_of(s.drop_last()).push((s.last().0@, opt_text(s.last().1)))
    }
}

/// Appending a variant appends its model.
pub proof fn lemma_variants_of_push(s: Seq<(String, Option<String>)>, x: (String, Option<String>))
    ensures
        variants_of(s.push(x)) == variants_of(s).push((x.0@, opt_text(x.1))),
{
    assert(s.push(x).drop_last() =~= s);
}

impl View for AliasKind {
    type V = AliasKindModel;

    open spec fn view(&self) -> AliasKindModel {
        match self {
            AliasKind::Type(t) => AliasKindModel::Type(crate::token::ty_model(*t)),
            AliasKind::Enum(vs) => AliasKindModel::Enum(variants_of(vs@)),
        }
    }
}

/// Model of a parsed alias record.
#[verifier::ext_equal]
pub struct AliasModel {
    pub name: Seq<char>,
    pub desc: Seq<Seq<char>>,
    pub kind: AliasKindModel,
    pub prefix: PrefixModel,
}

/// A type alias declaration: name, leading description, body, and a
/// display prefix.
#[derive(Debug, PartialEq, Eq, Hash)]
pub struct Alias {
    pub name: String,
    pub desc: Vec<String>,
    pub kind: AliasKind,
    pub prefix: Prefix,
}

impl View for Alias {
    type V = AliasModel;

    open spec fn view(&self) -> AliasModel {
        AliasModel {
            name: self.name@,
            desc: texts_of(self.desc@),
            kind: self.kind@,
            prefix: self.prefix@,
        }
    }
}

/// The alias rule matches at `pos` when the run of comments there is
/// followed by an `Alias` tag.
pub open spec fn alias_matches(tags: Seq<TagType>, pos: int) -> bool {
    let k = comments_end(tags, pos);
    k < tags.len() && tags[k] is Alias
}

/// The position just past the run of `Variant` tags that starts at `pos`.
pub open spec fn variants_end(tags: Seq<TagType>, pos: int) -> int
    decreases tags.len() - pos,
{
    if pos < tags.len() && tags[pos] is Variant {
        variants_end(tags, pos + 1)
    } else {
        pos
    }
}

/// The run of `Variant` tags starting at `pos` ends at or after `pos`
/// and within the sequence.
pub proof fn lemma_variants_end(tags: Seq<TagType>, pos: int)
    requires
        0 <= pos <= tags.len(),
    ensures
        pos <= variants_end(tags, pos) <= tags.len(),
    decreases tags.len() - pos,
{
    if pos < tags.len() && tags[pos] is Variant {
        lemma_variants_end(tags, pos + 1);
    }
}

/// The value/description pairs of the `Variant` tags in `tags[pos..end]`.
pub open spec fn variant_entries(tags: Seq<TagType>, pos: int, end: int) -> Seq<
    (Seq<char>, Option<Seq<char>>),
>
    decreases end - pos,
{
    if pos >= end {
        Seq::empty()
    } else {
        variant_entries(tags, pos, end - 1).push(
            (variant_value(tags[end - 1]), variant_desc(tags[end - 1])),
        )
    }
}

/// The position just past an alias parsed at `pos`: an alias tag that
/// carries a type ends right after that tag; a bare alias tag consumes
/// the run of `Variant` tags that follows.
pub open spec fn alias_end(tags: Seq<TagType>, pos: int) -> int {
    let k = comments_end(tags, pos);
    if alias_tag_ty(tags[k]) is Some {
        k + 1
    } else {
        variants_end(tags, k + 1)
    }
}

/// A matching alias parse consumes at least one tag and stays within
/// the sequence.
pub proof fn lemma_alias_end(tags: Seq<TagType>, pos: int)
    requires
        0 <= pos <= tags.len(),
        alias_matches(tags, pos),
    ensures
        pos < alias_end(tags, pos) <= tags.len(),
{
    crate::parser::lemma_comments_end(tags, pos);
    let k = comments_end(tags, pos);
    if !(alias_tag_ty(tags[k]) is Some) {
        lemma_variants_end(tags, k + 1);
    }
}

/// The record a successful alias parse at `pos` yields. An `Alias` tag
/// that carries a resolved type always yields the type form; only a bare
/// `Alias` tag is read as the head of an enumeration.
pub open spec fn alias_record(tags: Seq<TagType>, pos: int, a: AliasModel) -> bool {
    let k = comments_end(tags, pos);
    &&& a.name == alias_tag_name(tags[k])
    &&& a.desc == comment_texts(tags, pos, k)
    &&& (match alias_tag_ty(tags[k]) {
        Some(t) => a.kind == AliasKindModel::Type(t),
        None => a.kind == AliasKindModel::Enum(
            variant_entries(tags, k + 1, variants_end(tags, k + 1)),
        ),
    })
    &&& a.prefix == empty_prefix()
}

/// An alias tag that already carries a resolved type ends right after
/// that tag — the `Variant` tags that follow are never consumed — and
/// its record is the type form, never the enumeration.
pub proof fn lemma_typed_alias_consumes_no_variants(tags: Seq<TagType>, pos: int, a: AliasModel)
    requires
        0 <= pos <= tags.len(),
        alias_matches(tags, pos),
        alias_tag_ty(tags[comments_end(tags, pos)]) is Some,
        alias_record(tags, pos, a),
    ensures
        alias_end(tags, pos) == comments_end(tags, pos) + 1,
        a.kind is Type,
{
}

impl Alias {
    /// Consumes zero or more leading `Comment` tags and one `Alias` tag;
    /// when the tag carries no resolved type, the run of `Variant` tags
    /// that follows is consumed as the enumeration body. When the tag
    /// does carry a type, parsing stops directly after it, leaving any
    /// following `Variant` tags unconsumed. On failure nothing is
    /// consumed.
    pub fn parse(tags: &Vec<TagType>, pos: usize) -> (r: Option<(Alias, usize)>)
        requires
            pos <= tags@.len(),
        ensures
            r is Some <==> alias_matches(tags@, pos as int),
            r matches Some((a, end)) ==> alias_record(tags@, pos as int, a@)
                && end == alias_end(tags@, pos as int) && pos < end <= tags@.len(),
    {
        let (header, k) = collect_comments(tags, pos);
        if k >= tags.len() {
            return None;
        }
        match &tags[k] {
            TagType::Alias(name, ty_opt) => {
                match ty_opt {
                    Some(t) => {
                        let a = Alias {
                            name: name.clone(),
                            desc: header,
                            kind: AliasKind::Type(t.clone()),
                            prefix: Prefix::default(),
                        };
                        Some((a, k + 1))
                    },
                    None => {
                        let mut vars: Vec<(String, Option<String>)> = Vec::new();
                        let mut p = k + 1;
                        loop
                            invariant
                                k + 1 <= p <= tags@.len(),
                                k < tags@.len(),
                                variants_end(tags@, k as int + 1) == variants_end(
                                    tags@,
                                    p as int,
                                ),
                                variants_of(vars@) == variant_entries(
                                    tags@,
                                    k as int + 1,
                                    p as int,
                                ),
                            ensures
                                k + 1 <= p <= tags@.len(),
                                p == variants_end(tags@, k as int + 1),
                                variants_of(vars@) == variant_entries(
                                    tags@,
                                    k as int + 1,
                                    p as int,
                                ),
                            decreases tags@.len() - p,
                        {
                            if p < tags.len() {
                                match &tags[p] {
                                    TagType::Variant(v, d) => {
                                        let ghost vs0 = vars@;
                                        let entry = (v.clone(), clone_opt_string(d));
                                        proof {
                                            lemma_variants_of_push(vs0, entry);
                                        }
                                        vars.push(entry);
                                        p = p + 1;
                                    },
                                    _ => {
                                        break;
                                    },
                                }
                            } else {
                                break;
                            }
                        }
                        let a = Alias {
                            name: name.clone(),
                            desc: header,
                            kind: AliasKind::Enum(vars),
                            prefix: Prefix::default(),
                        };
                        Some((a, p))
                    },
                }
            },
            _ => None,
        }
    }
}

} // verus!
