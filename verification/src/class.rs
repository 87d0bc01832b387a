//! The class declaration rule: leading comments, one `Class` tag, a run
//! of field records, then a run of cross-references. The field rule —
//! leading comments followed by one `Field` tag, with the inline-first
//! description merge — lives here as well.
use vstd::prelude::*;

use crate::parser::See;
use crate::parser::Prefix;
use crate::parser::empty_prefix;
use crate::parser::opt_text;
use crate::parser::texts_of;
use crate::parser::comments_end;
use crate::parser::comment_texts;
use crate::parser::lemma_comments_end;
use crate::parser::sees_end;
use crate::parser::see_names;
use crate::parser::collect_comments;
use crate::parser::clone_opt_string;
use crate::parser::field_scope;
use crate::parser::field_name;
use crate::parser::field_ty;
use crate::parser::field_desc;
use crate::parser::class_tag_name;
use crate::parser::class_tag_parent;
use crate::token::TagType;
use crate::token::Ty;
use crate::token::TyModel;
use crate::token::Scope;

verus! {

/// Model of a parsed field record.
#[verifier::ext_equal]
pub struct FieldModel {
    pub scope: Scope,
    pub name: Seq<char>,
    pub ty: TyModel,
    pub desc: Seq<Seq<char>>,
}

/// A typed class field assembled from zero or more leading `Comment`
/// tags and exactly one `Field` tag.
#[derive(Debug, PartialEq, Eq, Hash)]
pub struct Field {
    pub scope: Scope,
    pub name: String,
    pub ty: Ty,
    pub desc: Vec<String>,
}

impl View for Field {
    type V = FieldModel;

    open spec fn view(&self) -> FieldModel {
        FieldModel {
            scope: self.scope,
            name: self.name@,
            ty: self.ty@,
            desc: texts_of(self.desc@),
        }
    }
}

/// The field rule matches at `pos` when the run of comments there is
/// followed by a `Field` tag.
pub open spec fn field_matches(tags: Seq<TagType>, pos: int) -> bool {
    let k = comments_end(tags, pos);
    k < tags.len() && tags[k] is Field
}

/// The position just past a field parsed at `pos`.
pub open spec fn field_end(tags: Seq<TagType>, pos: int) -> int {
    comments_end(tags, pos) + 1
}

/// The description merge rule: an inline description comes first, then
/// the leading comment lines; without one, the comment lines stand alone.
pub open spec fn merged_desc(inline: Option<Seq<char>>, header: Seq<Seq<char>>) -> Seq<Seq<char>> {
    match inline {
        Some(d) => seq![d] + header,
        None => header,
    }
}

/// The merge rule itself, as a law: with an inline description `d` and
/// leading comment lines `h`, the final description is `d` first and
/// then `h`; with no inline description it is exactly `h`.
pub proof fn lemma_field_desc_merge(d: Seq<char>, h: Seq<Seq<char>>)
    ensures
        merged_desc(Some(d), h) == seq![d] + h,
        merged_desc(None, h) == h,
{
}

/// The record a successful field parse at `pos` yields.
pub open spec fn field_record(tags: Seq<TagType>, pos: int) -> FieldModel {
    let k = comments_end(tags, pos);
    FieldModel {
        scope: field_scope(tags[k]),
        name: field_name(tags[k]),
        ty: field_ty(tags[k]),
        desc: merged_desc(field_desc(tags[k]), comment_texts(tags, pos, k)),
    }
}

impl Field {
    /// Consumes zero or more leading `Comment` tags and exactly one
    /// `Field` tag. On success the description is the inline description
    /// (if any) followed by the comment lines; on failure nothing is
    /// consumed.
    pub fn parse(tags: &Vec<TagType>, pos: usize) -> (r: Option<(Field, usize)>)
        requires
            pos <= tags@.len(),
        ensures
            r is Some <==> field_matches(tags@, pos as int),
            r matches Some((f, end)) ==> f@ == field_record(tags@, pos as int)
                && end == field_end(tags@, pos as int) && pos < end <= tags@.len(),
    {
        let (header, k) = collect_comments(tags, pos);
        if k < tags.len() {
            match &tags[k] {
                TagType::Field { scope, name, ty, desc } => {
                    let merged: Vec<String> = match desc {
                        Some(d0) => {
                            let mut v: Vec<String> = Vec::new();
                            v.push(d0.clone());
                            let mut rest = header;
                            let ghost h = rest@;
                            v.append(&mut rest);
                            proof {
                                reveal_with_fuel(texts_of, 2);
                                assert(v@ == seq![*d0] + h);
                                lemma_texts_of_concat(seq![*d0], h);
                                assert(seq![*d0].drop_last() =~= Seq::<String>::empty());
                                assert(texts_of(seq![*d0]) =~= seq![d0@]);
                            }
                            v
                        },
                        None => header,
                    };
                    let f = Field {
                        scope: *scope,
                        name: name.clone(),
                        ty: ty.clone(),
                        desc: merged,
                    };
                    Some((f, k + 1))
                },
                _ => None,
            }
        } else {
            None
        }
    }
}

/// Splitting a string sequence splits its texts.
pub proof fn lemma_texts_of_concat(a: Seq<String>, b: Seq<String>)
    ensures
        texts_of(a + b) == texts_of(a) + texts_of(b),
    decreases b.len(),
{
    if b.len() == 0 {
        assert(a + b =~= a);
        assert(texts_of(a) + texts_of(b) =~= texts_of(a));
    } else {
        lemma_texts_of_concat(a, b.drop_last());
        assert((a + b).drop_last() =~= a + b.drop_last());
        assert(texts_of(a) + texts_of(b) =~= (texts_of(a) + texts_of(b.drop_last())).push(
            b.last()@,
        ));
    }
}

/// The models of a sequence of field records, element by element.
pub open spec fn fields_models(s: Seq<Field>) -> Seq<FieldModel>
    decreases s.len(),
{
    if s.len() == 0 {
        Seq::empty()
    } else {
        fields_models(s.drop_last()).push(s.last()@)
    }
}

/// Appending a field appends its model.
pub proof fn lemma_fields_models_push(s: Seq<Field>, f: Field)
    ensures
        fields_models(s.push(f)) == fields_models(s).push(f@),
{
    assert(s.push(f).drop_last() =~= s);
}

/// `fs` is exactly the run of field records parsed from `pos` up to
/// `end`, in source order — with no claim yet that the run is maximal.
pub open spec fn fields_prefix(tags: Seq<TagType>, pos: int, fs: Seq<FieldModel>, end: int) -> bool
    decreases fs.len(),
{
    if fs.len() == 0 {
        end == pos
    } else {
        field_matches(tags, pos) && fs[0] == field_record(tags, pos) && fields_prefix(
            tags,
            field_end(tags, pos),
            fs.drop_first(),
            end,
        )
    }
}

/// `fs` is the maximal run of field records parsed from `pos`; it ends
/// at `end`, where the field rule no longer matches.
pub open spec fn fields_at(tags: Seq<TagType>, pos: int, fs: Seq<FieldModel>, end: int) -> bool {
    fields_prefix(tags, pos, fs, end) && !field_matches(tags, end)
}

/// A parsed run of fields extends by one more field record at its end.
pub proof fn lemma_fields_prefix_push(
    tags: Seq<TagType>,
    pos: int,
    fs: Seq<FieldModel>,
    end: int,
    f: FieldModel,
)
    requires
        fields_prefix(tags, pos, fs, end),
        field_matches(tags, end),
        f == field_record(tags, end),
    ensures
        fields_prefix(tags, pos, fs.push(f), field_end(tags, end)),
    decreases fs.len(),
{
    reveal_with_fuel(fields_prefix, 2);
    if fs.len() == 0 {
        assert(fs.push(f).drop_first() =~= Seq::<FieldModel>::empty());
    } else {
        lemma_fields_prefix_push(tags, field_end(tags, pos), fs.drop_first(), end, f);
        assert(fs.push(f).drop_first() =~= fs.drop_first().push(f));
    }
}

/// The position just past the maximal run of field records at `pos`.
pub open spec fn fields_end(tags: Seq<TagType>, pos: int) -> int
    decreases tags.len() - pos,
    when 0 <= pos <= tags.len()
    via fields_end_decreases
{
    if field_matches(tags, pos) {
        fields_end(tags, field_end(tags, pos))
    } else {
        pos
    }
}

#[via_fn]
proof fn fields_end_decreases(tags: Seq<TagType>, pos: int) {
    if field_matches(tags, pos) {
        lemma_comments_end(tags, pos);
    }
}

/// The maximal run of fields ends at or after `pos`, within the sequence.
pub proof fn lemma_fields_end(tags: Seq<TagType>, pos: int)
    requires
        0 <= pos <= tags.len(),
    ensures
        pos <= fields_end(tags, pos) <= tags.len(),
    decreases tags.len() - pos,
{
    if field_matches(tags, pos) {
        lemma_comments_end(tags, pos);
        lemma_fields_end(tags, field_end(tags, pos));
    }
}

/// Model of a parsed class record.
#[verifier::ext_equal]
pub struct ClassModel {
    pub name: Seq<char>,
    pub parent: Option<Seq<char>>,
    pub desc: Seq<Seq<char>>,
    pub fields: Seq<FieldModel>,
    pub see: Seq<Seq<char>>,
    pub prefix: crate::parser::PrefixModel,
}

/// A class declaration: name, optional parent, leading description,
/// ordered fields, cross-references, and a display prefix.
#[derive(Debug, PartialEq, Eq, Hash)]
pub struct Class {
    pub name: String,
    pub parent: Option<String>,
    pub desc: Vec<String>,
    pub fields: Vec<Field>,
    pub see: See,
    pub prefix: Prefix,
}

impl View for Class {
    type V = ClassModel;

    open spec fn view(&self) -> ClassModel {
        ClassModel {
            name: self.name@,
            parent: opt_text(self.parent),
            desc: texts_of(self.desc@),
            fields: fields_models(self.fields@),
            see: self.see@,
            prefix: self.prefix@,
        }
    }
}

/// The class rule matches at `pos` when the run of comments there is
/// followed by a `Class` tag.
pub open spec fn class_matches(tags: Seq<TagType>, pos: int) -> bool {
    let k = comments_end(tags, pos);
    k < tags.len() && tags[k] is Class
}

/// The position just past a class parsed at `pos`.
pub open spec fn class_end(tags: Seq<TagType>, pos: int) -> int {
    sees_end(tags, fields_end(tags, comments_end(tags, pos) + 1))
}

/// A matching class parse consumes at least one tag and stays within
/// the sequence.
pub proof fn lemma_class_end(tags: Seq<TagType>, pos: int)
    requires
        0 <= pos <= tags.len(),
        class_matches(tags, pos),
    ensures
        pos < class_end(tags, pos) <= tags.len(),
{
    lemma_comments_end(tags, pos);
    let k = comments_end(tags, pos);
    lemma_fields_end(tags, k + 1);
    crate::parser::lemma_sees_end(tags, fields_end(tags, k + 1));
}

/// The record a successful class parse at `pos` yields, given that the
/// fields run ends at `m` and the references run ends at `end`.
pub open spec fn class_record(tags: Seq<TagType>, pos: int, c: ClassModel) -> bool {
    let k = comments_end(tags, pos);
    let m = fields_end(tags, k + 1);
    &&& c.name == class_tag_name(tags[k])
    &&& c.parent == class_tag_parent(tags[k])
    &&& c.desc == comment_texts(tags, pos, k)
    &&& fields_at(tags, k + 1, c.fields, m)
    &&& c.see == see_names(tags, m, class_end(tags, pos))
    &&& c.prefix == empty_prefix()
}

impl Class {
    /// Consumes zero or more leading `Comment` tags, one `Class` tag,
    /// the maximal run of field records, and the run of `See` tags that
    /// follows. The first tag matching none of these is left unconsumed;
    /// on failure nothing is consumed.
    pub fn parse(tags: &Vec<TagType>, pos: usize) -> (r: Option<(Class, usize)>)
        requires
            pos <= tags@.len(),
        ensures
            r is Some <==> class_matches(tags@, pos as int),
            r matches Some((c, end)) ==> class_record(tags@, pos as int, c@)
                && end == class_end(tags@, pos as int) && pos < end <= tags@.len(),
    {
        let (header, k) = collect_comments(tags, pos);
        if k >= tags.len() {
            return None;
        }
        match &tags[k] {
            TagType::Class(name, parent) => {
                let mut fields: Vec<Field> = Vec::new();
                let mut p = k + 1;
                loop
                    invariant
                        k + 1 <= p <= tags@.len(),
                        k < tags@.len(),
                        fields_end(tags@, k as int + 1) == fields_end(tags@, p as int),
                        fields_prefix(tags@, k as int + 1, fields_models(fields@), p as int),
                    ensures
                        k + 1 <= p <= tags@.len(),
                        p == fields_end(tags@, k as int + 1),
                        fields_at(tags@, k as int + 1, fields_models(fields@), p as int),
                    decreases tags@.len() - p,
                {
                    match Field::parse(tags, p) {
                        Some((f, p2)) => {
                            proof {
                                lemma_fields_models_push(fields@, f);
                                lemma_fields_prefix_push(
                                    tags@,
                                    k as int + 1,
                                    fields_models(fields@),
                                    p as int,
                                    f@,
                                );
                            }
                            fields.push(f);
                            p = p2;
                        },
                        None => {
                            break;
                        },
                    }
                }
                let (see, e) = See::parse(tags, p);
                let c = Class {
                    name: name.clone(),
                    parent: clone_opt_string(parent),
                    desc: header,
                    fields,
                    see,
                    prefix: Prefix::default(),
                };
                Some((c, e))
            },
            _ => None,
        }
    }
}

} // verus!
