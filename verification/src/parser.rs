//! Shared parsing machinery: a cursor position over the pending tag
//! sequence, the scanning rules for runs of `Comment` and `See` tags, and
//! the namespace `Prefix` attached to parsed declarations.
use vstd::prelude::*;

use crate::token::TagType;
use crate::token::TyModel;
use crate::token::Scope;
use crate::token::ty_model;

verus! {

/// The text carried by a `Comment` tag.
pub open spec fn comment_text(t: TagType) -> Seq<char> {
    match t {
        TagType::Comment(x) => x@,
        _ => arbitrary(),
    }
}

/// The views of a sequence of strings, element by element.
pub open spec fn texts_of(s: Seq<String>) -> Seq<Seq<char>>
    decreases s.len(),
{
    if s.len() == 0 {
        Seq::empty()
    } else {
        texts_of(s.drop_last()).push(s.last()@)
    }
}

/// Appending a string appends its view.
pub proof fn lemma_texts_of_push(s: Seq<String>, x: String)
    ensures
        texts_of(s.push(x)) == texts_of(s).push(x@),
{
    assert(s.push(x).drop_last() =~= s);
}

/// The model of an optional piece of text.
pub open spec fn opt_text(o: Option<String>) -> Option<Seq<char>> {
    match o {
        Some(s) => Some(s@),
        None => None,
    }
}

/// The visibility carried by a `Field` tag.
pub open spec fn field_scope(t: TagType) -> Scope {
    match t {
        TagType::Field { scope, .. } => scope,
        _ => arbitrary(),
    }
}

/// The name carried by a `Field` tag.
pub open spec fn field_name(t: TagType) -> Seq<char> {
    match t {
        TagType::Field { name, .. } => name@,
        _ => arbitrary(),
    }
}

/// The type carried by a `Field` tag.
pub open spec fn field_ty(t: TagType) -> TyModel {
    match t {
        TagType::Field { ty, .. } => ty_model(ty),
        _ => arbitrary(),
    }
}

/// The inline description carried by a `Field` tag, if any.
pub open spec fn field_desc(t: TagType) -> Option<Seq<char>> {
    match t {
        TagType::Field { desc, .. } => opt_text(desc),
        _ => arbitrary(),
    }
}

/// The name carried by a `Class` tag.
pub open spec fn class_tag_name(t: TagType) -> Seq<char> {
    match t {
        TagType::Class(name, _) => name@,
        _ => arbitrary(),
    }
}

/// The parent name carried by a `Class` tag, if any.
pub open spec fn class_tag_parent(t: TagType) -> Option<Seq<char>> {
    match t {
        TagType::Class(_, parent) => opt_text(parent),
        _ => arbitrary(),
    }
}

/// The name carried by an `Alias` tag.
pub open spec fn alias_tag_name(t: TagType) -> Seq<char> {
    match t {
        TagType::Alias(name, _) => name@,
        _ => arbitrary(),
    }
}

/// The resolved type carried by an `Alias` tag, if any.
pub open spec fn alias_tag_ty(t: TagType) -> Option<TyModel> {
    match t {
        TagType::Alias(_, ty) => match ty {
            Some(t0) => Some(ty_model(t0)),
            None => None,
        },
        _ => arbitrary(),
    }
}

/// The literal value carried by a `Variant` tag.
pub open spec fn variant_value(t: TagType) -> Seq<char> {
    match t {
        TagType::Variant(v, _) => v@,
        _ => arbitrary(),
    }
}

/// The description carried by a `Variant` tag, if any.
pub open spec fn variant_desc(t: TagType) -> Option<Seq<char>> {
    match t {
        TagType::Variant(_, d) => opt_text(d),
        _ => arbitrary(),
    }
}

/// The reference name carried by a `See` tag.
pub open spec fn see_name(t: TagType) -> Seq<char> {
    match t {
        TagType::See(x) => x@,
        _ => arbitrary(),
    }
}

/// The position just past the run of `Comment` tags that starts at `pos`.
pub open spec fn comments_end(tags: Seq<TagType>, pos: int) -> int
    decreases tags.len() - pos,
{
    if pos < tags.len() && tags[pos] is Comment {
        comments_end(tags, pos + 1)
    } else {
        pos
    }
}

/// The run of comments starting at `pos` ends at or after `pos`, within
/// the sequence, covers only `Comment` tags, and stops at the first tag
/// that is not a comment.
pub proof fn lemma_comments_end(tags: Seq<TagType>, pos: int)
    requires
        0 <= pos <= tags.len(),
    ensures
        pos <= comments_end(tags, pos) <= tags.len(),
        forall|i: int| pos <= i < comments_end(tags, pos) ==> tags[i] is Comment,
        comments_end(tags, pos) < tags.len() ==> !(tags[comments_end(tags, pos)] is Comment),
    decreases tags.len() - pos,
{
    if pos < tags.len() && tags[pos] is Comment {
        lemma_comments_end(tags, pos + 1);
    }
}

/// The texts of the `Comment` tags in `tags[pos..end]`.
pub open spec fn comment_texts(tags: Seq<TagType>, pos: int, end: int) -> Seq<Seq<char>>
    decreases end - pos,
{
    if pos >= end {
        Seq::empty()
    } else {
        comment_texts(tags, pos, end - 1).push(comment_text(tags[end - 1]))
    }
}

/// The position just past the run of `See` tags that starts at `pos`.
pub open spec fn sees_end(tags: Seq<TagType>, pos: int) -> int
    decreases tags.len() - pos,
{
    if pos < tags.len() && tags[pos] is See {
        sees_end(tags, pos + 1)
    } else {
        pos
    }
}

/// The run of `See` tags starting at `pos` ends at or after `pos` and
/// within the sequence.
pub proof fn lemma_sees_end(tags: Seq<TagType>, pos: int)
    requires
        0 <= pos <= tags.len(),
    ensures
        pos <= sees_end(tags, pos) <= tags.len(),
    decreases tags.len() - pos,
{
    if pos < tags.len() && tags[pos] is See {
        lemma_sees_end(tags, pos + 1);
    }
}

/// The names of the `See` tags in `tags[pos..end]`.
pub open spec fn see_names(tags: Seq<TagType>, pos: int, end: int) -> Seq<Seq<char>>
    decreases end - pos,
{
    if pos >= end {
        Seq::empty()
    } else {
        see_names(tags, pos, end - 1).push(see_name(tags[end - 1]))
    }
}

/// Collects the run of `Comment` tags starting at `pos`: their texts in
/// source order, and the position of the first tag that is not a comment.
pub(crate) fn collect_comments(tags: &Vec<TagType>, pos: usize) -> (r: (Vec<String>, usize))
    requires
        pos <= tags@.len(),
    ensures
        r.1 == comments_end(tags@, pos as int),
        pos <= r.1 <= tags@.len(),
        texts_of(r.0@) == comment_texts(tags@, pos as int, r.1 as int),
{
    let mut header: Vec<String> = Vec::new();
    let mut p = pos;
    loop
        invariant
            pos <= p <= tags@.len(),
            comments_end(tags@, pos as int) == comments_end(tags@, p as int),
            texts_of(header@) == comment_texts(tags@, pos as int, p as int),
        ensures
            p == comments_end(tags@, pos as int),
            pos <= p <= tags@.len(),
            texts_of(header@) == comment_texts(tags@, pos as int, p as int),
        decreases tags@.len() - p,
    {
        if p < tags.len() {
            match &tags[p] {
                TagType::Comment(x) => {
                    let ghost h0 = header@;
                    header.push(x.clone());
                    p = p + 1;
                    proof {
                        lemma_texts_of_push(h0, *x);
                    }
                },
                _ => {
                    break;
                },
            }
        } else {
            break;
        }
    }
    (header, p)
}

/// Collects the run of `See` tags starting at `pos`: their names in
/// source order, and the position of the first tag that is not a `See`.
pub(crate) fn collect_sees(tags: &Vec<TagType>, pos: usize) -> (r: (Vec<String>, usize))
    requires
        pos <= tags@.len(),
    ensures
        r.1 == sees_end(tags@, pos as int),
        pos <= r.1 <= tags@.len(),
        texts_of(r.0@) == see_names(tags@, pos as int, r.1 as int),
{
    let mut refs: Vec<String> = Vec::new();
    let mut p = pos;
    loop
        invariant
            pos <= p <= tags@.len(),
            sees_end(tags@, pos as int) == sees_end(tags@, p as int),
            texts_of(refs@) == see_names(tags@, pos as int, p as int),
        ensures
            p == sees_end(tags@, pos as int),
            pos <= p <= tags@.len(),
            texts_of(refs@) == see_names(tags@, pos as int, p as int),
        decreases tags@.len() - p,
    {
        if p < tags.len() {
            match &tags[p] {
                TagType::See(x) => {
                    let ghost r0 = refs@;
                    refs.push(x.clone());
                    p = p + 1;
                    proof {
                        lemma_texts_of_push(r0, *x);
                    }
                },
                _ => {
                    break;
                },
            }
        } else {
            break;
        }
    }
    (refs, p)
}

/// Clones an optional string; `String` cloning preserves the value.
pub(crate) fn clone_opt_string(o: &Option<String>) -> (r: Option<String>)
    ensures
        r == *o,
{
    match o {
        Some(s) => Some(s.clone()),
        None => None,
    }
}

/// Model of a namespace prefix: two optional display slots.
#[verifier::ext_equal]
pub struct PrefixModel {
    pub left: Option<Seq<char>>,
    pub right: Option<Seq<char>>,
}

/// A namespace qualifier attached to a declaration after parsing. The
/// left slot records the parsed qualifier; a later linking pass may
/// replace the right slot to change how the qualified name displays.
#[derive(Debug, PartialEq, Eq, Hash)]
pub struct Prefix {
    pub left: Option<String>,
    pub right: Option<String>,
}

impl View for Prefix {
    type V = PrefixModel;

    open spec fn view(&self) -> PrefixModel {
        PrefixModel { left: opt_text(self.left), right: opt_text(self.right) }
    }
}

/// The prefix every freshly parsed declaration carries: both slots empty.
pub open spec fn empty_prefix() -> PrefixModel {
    PrefixModel { left: None, right: None }
}

impl Default for Prefix {
    /// A prefix with both slots empty.
    fn default() -> (r: Self)
        ensures
            r@ == empty_prefix(),
    {
        Prefix { left: None, right: None }
    }
}

impl Prefix {
    /// Replaces the right (display) slot only; the left slot — and with it
    /// the recorded declaration kind — is untouched.
    pub fn rename(&mut self, name: String)
        ensures
            final(self)@.left == old(self)@.left,
            final(self)@.right == Some(name@),
    {
        self.right = Some(name);
    }
}

/// A cross-reference list: the referenced names in source order.
#[derive(Debug, PartialEq, Eq, Hash)]
pub struct See {
    pub refs: Vec<String>,
}

impl View for See {
    type V = Seq<Seq<char>>;

    open spec fn view(&self) -> Seq<Seq<char>> {
        texts_of(self.refs@)
    }
}

impl See {
    /// Consumes the run of `See` tags at `pos` (possibly empty — this
    /// rule never fails) and returns the collected references with the
    /// first unconsumed position.
    pub fn parse(tags: &Vec<TagType>, pos: usize) -> (r: (See, usize))
        requires
            pos <= tags@.len(),
        ensures
            r.1 == sees_end(tags@, pos as int),
            pos <= r.1 <= tags@.len(),
            r.0@ == see_names(tags@, pos as int, r.1 as int),
    {
        let (refs, p) = collect_sees(tags, pos);
        (See { refs }, p)
    }
}

} // verus!
