//! Structured model of Lua documentation annotations: tags extracted from
//! doc comments, the recursive type-expression language they embed, and
//! parsers that assemble ordered tag sequences into declaration records.
use vstd::prelude::*;

pub mod alias;
pub mod class;
pub mod parser;
pub mod token;
pub mod visitor;

use crate::alias::Alias;
use crate::alias::alias_end;
use crate::alias::alias_matches;
use crate::alias::alias_record;
use crate::alias::lemma_alias_end;
use crate::class::Class;
use crate::class::class_end;
use crate::class::class_matches;
use crate::class::class_record;
use crate::class::lemma_class_end;
use crate::token::TagType;

verus! {

/// A declaration assembled by the top-level pass.
#[derive(Debug, PartialEq, Eq, Hash)]
pub enum Decl {
    Class(Class),
    Alias(Alias),
}

/// One declaration parsed at `pos`, ending at `end`. The class rule is
/// tried before the alias rule; the two match disjoint tag heads, so the
/// order only fixes which rule is tried first.
pub open spec fn decl_at(tags: Seq<TagType>, pos: int, d: Decl, end: int) -> bool {
    if class_matches(tags, pos) {
        &&& d matches Decl::Class(c) && class_record(tags, pos, c@)
        &&& end == class_end(tags, pos)
    } else if alias_matches(tags, pos) {
        &&& d matches Decl::Alias(a) && alias_record(tags, pos, a@)
        &&& end == alias_end(tags, pos)
    } else {
        false
    }
}

/// `ds` is exactly the sequence of declarations the top-level pass
/// assembles from `tags[pos..end]`: at each position a declaration rule
/// is tried, and a tag that no rule recognizes is stepped over without
/// aborting the pass or entering any declaration.
pub open spec fn decls_prefix(tags: Seq<TagType>, pos: int, ds: Seq<Decl>, end: int) -> bool
    decreases tags.len() - pos,
    when 0 <= pos <= tags.len() && end <= tags.len()
    via decls_prefix_decreases
{
    if pos >= end {
        ds.len() == 0 && pos == end
    } else if class_matches(tags, pos) {
        &&& ds.len() > 0
        &&& (ds[0] matches Decl::Class(c) && class_record(tags, pos, c@))
        &&& decls_prefix(tags, class_end(tags, pos), ds.drop_first(), end)
    } else if alias_matches(tags, pos) {
        &&& ds.len() > 0
        &&& (ds[0] matches Decl::Alias(a) && alias_record(tags, pos, a@))
        &&& decls_prefix(tags, alias_end(tags, pos), ds.drop_first(), end)
    } else {
        decls_prefix(tags, pos + 1, ds, end)
    }
}

#[via_fn]
proof fn decls_prefix_decreases(tags: Seq<TagType>, pos: int, ds: Seq<Decl>, end: int) {
    if pos < end {
        if class_matches(tags, pos) {
            lemma_class_end(tags, pos);
        } else if alias_matches(tags, pos) {
            lemma_alias_end(tags, pos);
        }
    }
}

/// A parsed run of declarations extends by one more declaration at its
/// end.
pub proof fn lemma_decls_prefix_push(
    tags: Seq<TagType>,
    pos: int,
    ds: Seq<Decl>,
    mid: int,
    d: Decl,
    end: int,
)
    requires
        0 <= pos <= tags.len(),
        mid <= tags.len(),
        end <= tags.len(),
        decls_prefix(tags, pos, ds, mid),
        decl_at(tags, mid, d, end),
    ensures
        decls_prefix(tags, pos, ds.push(d), end),
    decreases tags.len() - pos,
{
    reveal_with_fuel(decls_prefix, 2);
    if class_matches(tags, mid) {
        lemma_class_end(tags, mid);
    } else {
        lemma_alias_end(tags, mid);
    }
    if pos >= mid {
        assert(ds.push(d).drop_first() =~= Seq::<Decl>::empty());
    } else {
        if class_matches(tags, pos) {
            lemma_class_end(tags, pos);
            lemma_decls_prefix_push(tags, class_end(tags, pos), ds.drop_first(), mid, d, end);
            assert(ds.push(d).drop_first() =~= ds.drop_first().push(d));
        } else if alias_matches(tags, pos) {
            lemma_alias_end(tags, pos);
            lemma_decls_prefix_push(tags, alias_end(tags, pos), ds.drop_first(), mid, d, end);
            assert(ds.push(d).drop_first() =~= ds.drop_first().push(d));
        } else {
            lemma_decls_prefix_push(tags, pos + 1, ds, mid, d, end);
        }
    }
}

/// Stepping over one unrecognized tag leaves the parsed declarations as
/// they stand.
pub proof fn lemma_decls_prefix_skip(tags: Seq<TagType>, pos: int, ds: Seq<Decl>, mid: int)
    requires
        0 <= pos <= tags.len(),
        mid < tags.len(),
        decls_prefix(tags, pos, ds, mid),
        !class_matches(tags, mid),
        !alias_matches(tags, mid),
    ensures
        decls_prefix(tags, pos, ds, mid + 1),
    decreases tags.len() - pos,
{
    reveal_with_fuel(decls_prefix, 2);
    if pos >= mid {
    } else {
        if class_matches(tags, pos) {
            lemma_class_end(tags, pos);
            lemma_decls_prefix_skip(tags, class_end(tags, pos), ds.drop_first(), mid);
        } else if alias_matches(tags, pos) {
            lemma_alias_end(tags, pos);
            lemma_decls_prefix_skip(tags, alias_end(tags, pos), ds.drop_first(), mid);
        } else {
            lemma_decls_prefix_skip(tags, pos + 1, ds, mid);
        }
    }
}

/// A tag that no declaration rule recognizes is simply stepped over:
/// the declarations assembled after it are exactly those that would be
/// assembled starting just past it, so one stray tag never aborts the
/// pass.
pub proof fn lemma_unrecognized_tag_skipped(tags: Seq<TagType>, pos: int, ds: Seq<Decl>, end: int)
    requires
        0 <= pos <= tags.len(),
        end <= tags.len(),
        pos < end,
        !class_matches(tags, pos),
        !alias_matches(tags, pos),
    ensures
        decls_prefix(tags, pos, ds, end) == decls_prefix(tags, pos + 1, ds, end),
{
}

/// The top-level pass: assembles the ordered declaration sequence from
/// one flat tag sequence. Class parses are tried first, then alias
/// parses; a tag that neither rule recognizes is left unconsumed by
/// every declaration and stepped over, and parsing continues with the
/// tags that follow.
pub fn parse_declarations(tags: &Vec<TagType>) -> (r: Vec<Decl>)
    ensures
        decls_prefix(tags@, 0, r@, tags@.len() as int),
{
    let mut ds: Vec<Decl> = Vec::new();
    let mut p: usize = 0;
    while p < tags.len()
        invariant
            p <= tags@.len(),
            decls_prefix(tags@, 0, ds@, p as int),
        decreases tags@.len() - p,
    {
        match Class::parse(tags, p) {
            Some((c, p2)) => {
                proof {
                    lemma_decls_prefix_push(tags@, 0, ds@, p as int, Decl::Class(c), p2 as int);
                }
                ds.push(Decl::Class(c));
                p = p2;
            },
            None => {
                match Alias::parse(tags, p) {
                    Some((a, p2)) => {
                        proof {
                            lemma_decls_prefix_push(
                                tags@,
                                0,
                                ds@,
                                p as int,
                                Decl::Alias(a),
                                p2 as int,
                            );
                        }
                        ds.push(Decl::Alias(a));
                        p = p2;
                    },
                    None => {
                        proof {
                            lemma_decls_prefix_skip(tags@, 0, ds@, p as int);
                        }
                        p = p + 1;
                    },
                }
            },
        }
    }
    ds
}

} // verus!
