//! The Variant Analyzer: extracts one structural descriptor per variant of
//! a sum type — its name, its payload type, and a reusable match pattern —
//! and enforces the one-payload-per-variant invariant.

use vstd::prelude::*;
use crate::ast::{FieldX, FieldsX, Span, SumType, TypeExpr, TypeX, VariantX, ty_clone};
use crate::error::Error;

verus! {

broadcast use vstd::seq::group_seq_axioms, vstd::std_specs::vec::group_vec_axioms;

/// Mathematical view of a match pattern.
pub struct PatternX {
    pub item: Seq<char>,
    pub variant: Seq<char>,
    pub field: Option<Seq<char>>,
}

/// A reusable match pattern for one variant: it matches
/// `<item>::<variant>` and binds the single payload to the canonical local
/// name `value`, whether the source declared the field named (`field` is
/// the original field name) or unnamed (`field` is absent). Downstream
/// synthesizers therefore never need to know how the source spelled it.
pub struct MatchPattern {
    pub item: String,
    pub variant: String,
    pub field: Option<String>,
}

impl MatchPattern {
    pub open spec fn deep(self) -> PatternX {
        PatternX {
            item: self.item@,
            variant: self.variant@,
            field: match self.field {
                Some(f) => Some(f@),
                None => None,
            },
        }
    }
}

/// Mathematical view of a per-variant descriptor.
pub struct VariantInfoX {
    pub name: Seq<char>,
    pub span: Span,
    pub ty: TypeX,
    pub ty_span: Span,
    pub pattern: PatternX,
}

/// The structural descriptor of one variant: its name, its single payload
/// type, and the match pattern binding the payload to `value`.
pub struct VariantInfo {
    pub name: String,
    pub span: Span,
    pub ty: TypeExpr,
    pub ty_span: Span,
    pub pattern: MatchPattern,
}

impl VariantInfo {
    pub open spec fn deep(self) -> VariantInfoX {
        VariantInfoX {
            name: self.name@,
            span: self.span,
            ty: self.ty.deep(),
            ty_span: self.ty_span,
            pattern: self.pattern.deep(),
        }
    }
}

/// The single payload field of a variant, or the failure classifying why
/// the variant has no such field: no payload at all (`UnitVariant`) or
/// more than one (`MultipleMembers`). The failure's position is the
/// variant's own span.
pub open spec fn variant_payload(v: VariantX) -> Result<FieldX, Error> {
    match v.fields {
        FieldsX::Unit => Err(Error::UnitVariant(v.span)),
        FieldsX::Named(fs) => if fs.len() == 0 {
            Err(Error::UnitVariant(v.span))
        } else if fs.len() > 1 {
            Err(Error::MultipleMembers(v.span))
        } else {
            Ok(fs[0])
        },
        FieldsX::Unnamed(fs) => if fs.len() == 0 {
            Err(Error::UnitVariant(v.span))
        } else if fs.len() > 1 {
            Err(Error::MultipleMembers(v.span))
        } else {
            Ok(fs[0])
        },
    }
}

/// What analyzing one variant of sum type `item_name` yields.
pub open spec fn analyze_variant(item_name: Seq<char>, v: VariantX) -> Result<VariantInfoX, Error> {
    match variant_payload(v) {
        Err(e) => Err(e),
        Ok(f) => Ok(
            VariantInfoX {
                name: v.name,
                span: v.span,
                ty: f.ty,
                ty_span: f.span,
                pattern: PatternX { item: item_name, variant: v.name, field: f.name },
            },
        ),
    }
}

/// Whether an executable per-variant result equals an expected one.
pub open spec fn result_matches(r: Result<VariantInfo, Error>, x: Result<VariantInfoX, Error>) -> bool {
    match (r, x) {
        (Ok(i), Ok(ix)) => i.deep() == ix,
        (Err(e), Err(ex)) => e == ex,
        _ => false,
    }
}

/// Analyzes every variant of a sum type, in declaration order, producing
/// one descriptor or one classified failure per variant. The result can be
/// traversed any number of times; re-traversal is deterministic and
/// side-effect-free.
#[verifier::loop_isolation(false)]
pub fn variant_patterns(item: &SumType) -> (r: Vec<Result<VariantInfo, Error>>)
    ensures
        r@.len() == item.variants@.len(),
        forall|i: int|
            0 <= i < r@.len() ==> result_matches(
                #[trigger] r@[i],
                analyze_variant(item.name@, item.variants@[i].deep()),
            ),
{
    let mut out: Vec<Result<VariantInfo, Error>> = Vec::new();
    let mut i: usize = 0;
    while i < item.variants.len()
        invariant
            i <= item.variants@.len(),
            out@.len() == i,
            forall|j: int|
                0 <= j < i ==> result_matches(
                    #[trigger] out@[j],
                    analyze_variant(item.name@, item.variants@[j].deep()),
                ),
        decreases item.variants@.len() - i,
    {
        let v = &item.variants[i];
        let entry: Result<VariantInfo, Error> = match &v.fields {
            crate::ast::VariantFields::Unit => Err(Error::UnitVariant(v.span)),
            crate::ast::VariantFields::Named(fs) => {
                if fs.len() == 0 {
                    Err(Error::UnitVariant(v.span))
                } else if fs.len() > 1 {
                    Err(Error::MultipleMembers(v.span))
                } else {
                    Ok(
                        VariantInfo {
                            name: v.name.clone(),
                            span: v.span,
                            ty: ty_clone(&fs[0].ty),
                            ty_span: fs[0].span,
                            pattern: MatchPattern {
                                item: item.name.clone(),
                                variant: v.name.clone(),
                                field: Some(fs[0].name.clone()),
                            },
                        },
                    )
                }
            },
            crate::ast::VariantFields::Unnamed(fs) => {
                if fs.len() == 0 {
                    Err(Error::UnitVariant(v.span))
                } else if fs.len() > 1 {
                    Err(Error::MultipleMembers(v.span))
                } else {
                    Ok(
                        VariantInfo {
                            name: v.name.clone(),
                            span: v.span,
                            ty: ty_clone(&fs[0].ty),
                            ty_span: fs[0].span,
                            pattern: MatchPattern {
                                item: item.name.clone(),
                                variant: v.name.clone(),
                                field: None,
                            },
                        },
                    )
                }
            },
        };
        out.push(entry);
        i = i + 1;
    }
    out
}

/// Structural copy of a match pattern, equal in view to the original.
pub fn pattern_clone(p: &MatchPattern) -> (r: MatchPattern)
    ensures
        r.deep() == p.deep(),
{
    MatchPattern {
        item: p.item.clone(),
        variant: p.variant.clone(),
        field: match &p.field {
            Some(f) => Some(f.clone()),
            None => None,
        },
    }
}

} // verus!
