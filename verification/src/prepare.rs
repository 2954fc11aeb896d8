//! The forwarder-preparation transform: rewrites every payload-absent
//! variant of a sum type into a single-payload variant carrying a marker
//! type named after the variant itself, leaves already-conforming variants
//! untouched, and rejects variants with more than one payload field. It is
//! the only pass that coerces valueless variants; conversion and dispatch
//! synthesis never do.

use vstd::prelude::*;
use vstd::string::StringExecFns;
use crate::ast::{
    FieldX, FieldsX, Generics, SumType, SumTypeX, TypeExpr, TypeX, UnnamedField, Variant,
    VariantFields, VariantX, generics_clone, unnamed_fields_view, variant_clone, variants_view,
};
use crate::error::{Error, ErrorX};

verus! {

broadcast use vstd::seq::group_seq_axioms, vstd::std_specs::vec::group_vec_axioms;

/// Whether a variant carries no payload value at all.
pub open spec fn payload_absent(f: FieldsX) -> bool {
    match f {
        FieldsX::Unit => true,
        FieldsX::Named(fs) => fs.len() == 0,
        FieldsX::Unnamed(fs) => fs.len() == 0,
    }
}

/// Whether a variant carries more than one payload field.
pub open spec fn multi_payload(f: FieldsX) -> bool {
    match f {
        FieldsX::Unit => false,
        FieldsX::Named(fs) => fs.len() > 1,
        FieldsX::Unnamed(fs) => fs.len() > 1,
    }
}

/// The message rejecting a variant with more than one payload field.
pub open spec fn only_one_field_msg() -> Seq<char> {
    "Only one field allowed on each variant"@
}

fn make_only_one_field_msg() -> (r: String)
    ensures
        r@ == only_one_field_msg(),
{
    String::from_str("Only one field allowed on each variant")
}

/// The normalized form of one variant: a payload-absent variant becomes a
/// variant with a single unnamed payload whose type is a marker named
/// identically to the variant; any other variant is unchanged.
pub open spec fn normalize_variant(v: VariantX) -> VariantX {
    if payload_absent(v.fields) {
        VariantX {
            name: v.name,
            span: v.span,
            fields: FieldsX::Unnamed(
                seq![FieldX { name: None, ty: TypeX::Path(v.name), span: v.span }],
            ),
        }
    } else {
        v
    }
}

/// What the transform yields after the first `n` variants: each one
/// normalized, in declaration order; the first variant with more than one
/// payload field fails the whole transform.
pub open spec fn prepare_model(item: SumTypeX, n: int) -> Result<Seq<VariantX>, ErrorX>
    decreases n,
{
    if n <= 0 {
        Ok(Seq::empty())
    } else {
        match prepare_model(item, n - 1) {
            Err(e) => Err(e),
            Ok(prev) => {
                let v = item.variants[n - 1];
                if multi_payload(v.fields) {
                    Err(ErrorX::Other(v.span, only_one_field_msg()))
                } else {
                    Ok(prev.push(normalize_variant(v)))
                }
            },
        }
    }
}

/// Whether an executable transform result equals an expected one.
pub open spec fn prepare_res_matches(
    r: Result<SumType, Error>,
    m: Result<Seq<VariantX>, ErrorX>,
) -> bool {
    match (r, m) {
        (Ok(out), Ok(vs)) => variants_view(out.variants@) == vs,
        (Err(e), Err(ex)) => e.deep() == ex,
        _ => false,
    }
}

proof fn lemma_prepare_err_stable(item: SumTypeX, m: int, n: int)
    requires
        0 <= m <= n,
        prepare_model(item, m) is Err,
    ensures
        prepare_model(item, n) == prepare_model(item, m),
    decreases n - m,
{
    if m < n {
        lemma_prepare_err_stable(item, m, n - 1);
    }
}

/// Rewrites every payload-absent variant of `item` into a single-payload
/// variant carrying a same-named marker type, leaving already-conforming
/// variants untouched; fails fast on the first variant with more than one
/// payload field. The sum type's name, span, and generic-parameter list
/// are kept unchanged. The trait-bound list accompanying the annotation is
/// accepted but plays no role in the rewrite itself.
#[verifier::loop_isolation(false)]
pub fn forwarding2(traits: &Vec<String>, item: &SumType) -> (r: Result<SumType, Error>)
    ensures
        prepare_res_matches(r, prepare_model(item.deep(), item.variants@.len() as int)),
        r is Ok ==> {
            &&& r->Ok_0.name@ == item.name@
            &&& r->Ok_0.span == item.span
            &&& r->Ok_0.generics.deep() == item.generics.deep()
        },
{
    let ghost n = item.variants@.len() as int;
    let mut out: Vec<Variant> = Vec::new();
    let mut i: usize = 0;
    while i < item.variants.len()
        invariant
            i <= item.variants@.len(),
            prepare_model(item.deep(), i as int) is Ok,
            variants_view(out@) == prepare_model(item.deep(), i as int)->Ok_0,
        decreases item.variants@.len() - i,
    {
        let ghost prev = prepare_model(item.deep(), i as int)->Ok_0;
        let v = &item.variants[i];
        proof {
            assert(item.deep().variants[i as int] == item.variants@[i as int].deep());
        }
        let absent: bool = match &v.fields {
            VariantFields::Unit => true,
            VariantFields::Named(fs) => {
                if fs.len() > 1 {
                    proof {
                        lemma_prepare_err_stable(item.deep(), i + 1, n);
                    }
                    return Err(Error::Other(v.span, make_only_one_field_msg()));
                }
                fs.len() == 0
            },
            VariantFields::Unnamed(fs) => {
                if fs.len() > 1 {
                    proof {
                        lemma_prepare_err_stable(item.deep(), i + 1, n);
                    }
                    return Err(Error::Other(v.span, make_only_one_field_msg()));
                }
                fs.len() == 0
            },
        };
        if absent {
            let mut marker: Vec<UnnamedField> = Vec::new();
            marker.push(UnnamedField { ty: TypeExpr::Path(v.name.clone()), span: v.span });
            proof {
                assert(unnamed_fields_view(marker@) =~= seq![
                    FieldX { name: None, ty: TypeX::Path(v.name@), span: v.span },
                ]);
            }
            out.push(
                Variant { name: v.name.clone(), span: v.span, fields: VariantFields::Unnamed(marker) },
            );
        } else {
            out.push(variant_clone(v));
        }
        proof {
            assert(variants_view(out@) =~= prev.push(normalize_variant(item.variants@[i as int].deep())));
        }
        i = i + 1;
    }
    Ok(
        SumType {
            name: item.name.clone(),
            span: item.span,
            generics: generics_clone(&item.generics),
            variants: out,
        },
    )
}

proof fn lemma_prepare_ok_prefix(item: SumTypeX, n: int)
    requires
        0 <= n <= item.variants.len(),
        forall|j: int| 0 <= j < n ==> !multi_payload((#[trigger] item.variants[j]).fields),
    ensures
        prepare_model(item, n) is Ok,
        prepare_model(item, n)->Ok_0.len() == n,
        forall|j: int|
            0 <= j < n ==> prepare_model(item, n)->Ok_0[j] == normalize_variant(item.variants[j]),
    decreases n,
{
    if n > 0 {
        lemma_prepare_ok_prefix(item, n - 1);
    }
}

/// Law (unit-variant normalization): for a sum type with no variant of two
/// or more payload fields, the transform succeeds, keeps one variant per
/// variant in order, rewrites exactly the payload-absent ones into a
/// single unnamed payload field whose type is a marker named identically
/// to the variant, and leaves every variant that already has exactly one
/// payload field unchanged.
pub proof fn lemma_unit_variant_normalization(item: SumTypeX, i: int)
    requires
        forall|j: int|
            0 <= j < item.variants.len() ==> !multi_payload((#[trigger] item.variants[j]).fields),
        0 <= i < item.variants.len(),
    ensures
        prepare_model(item, item.variants.len() as int) is Ok,
        prepare_model(item, item.variants.len() as int)->Ok_0.len() == item.variants.len(),
        payload_absent(item.variants[i].fields) ==> prepare_model(
            item,
            item.variants.len() as int,
        )->Ok_0[i].fields == FieldsX::Unnamed(
            seq![
                FieldX {
                    name: None,
                    ty: TypeX::Path(item.variants[i].name),
                    span: item.variants[i].span,
                },
            ],
        ),
        !payload_absent(item.variants[i].fields) ==> prepare_model(
            item,
            item.variants.len() as int,
        )->Ok_0[i] == item.variants[i],
{
    lemma_prepare_ok_prefix(item, item.variants.len() as int);
}

/// Law (multi-member rejection): a sum type holding a variant with two or
/// more payload fields fails the transform, and the diagnostic carries the
/// rejection message.
pub proof fn lemma_multi_member_rejection(item: SumTypeX)
    requires
        exists|j: int|
            0 <= j < item.variants.len() && multi_payload((#[trigger] item.variants[j]).fields),
    ensures
        prepare_model(item, item.variants.len() as int) is Err,
        prepare_model(item, item.variants.len() as int)->Err_0 is Other,
{
    lemma_prepare_multi(item, item.variants.len() as int);
}

proof fn lemma_prepare_multi(item: SumTypeX, n: int)
    requires
        0 <= n <= item.variants.len(),
        exists|j: int| 0 <= j < n && multi_payload((#[trigger] item.variants[j]).fields),
    ensures
        prepare_model(item, n) is Err,
        prepare_model(item, n)->Err_0 is Other,
    decreases n,
{
    if exists|j: int| 0 <= j < n - 1 && multi_payload((#[trigger] item.variants[j]).fields) {
        lemma_prepare_multi(item, n - 1);
    } else {
        let j0 = choose|j0: int|
            0 <= j0 < n && multi_payload((#[trigger] item.variants[j0]).fields);
        assert(j0 == n - 1);
        lemma_prepare_ok_prefix(item, n - 1);
    }
}

} // verus!
