use enum_forward::analyze::variant_patterns;
use enum_forward::ast::{
    Generics, NamedField, Span, SumType, TypeExpr, UnnamedField, Variant, VariantFields,
    render_sig,
};
use enum_forward::convert::{
    ArmBody, apply_embedding, apply_projection, derive_enum_from2, derive_enum_tryinto2,
};
use enum_forward::error::Error;

fn sp(n: usize) -> Span {
    Span { lo: n, hi: n + 1 }
}

fn no_generics() -> Generics {
    Generics { params: vec![], wheres: vec![] }
}

fn path(name: &str) -> TypeExpr {
    TypeExpr::Path(name.to_string())
}

fn unnamed_variant(name: &str, ty: TypeExpr, n: usize) -> Variant {
    Variant {
        name: name.to_string(),
        span: sp(n),
        fields: VariantFields::Unnamed(vec![UnnamedField { ty, span: sp(n + 100) }]),
    }
}

fn unit_variant(name: &str, n: usize) -> Variant {
    Variant { name: name.to_string(), span: sp(n), fields: VariantFields::Unit }
}

fn two_variant_sum() -> SumType {
    SumType {
        name: "Foo".to_string(),
        span: sp(0),
        generics: no_generics(),
        variants: vec![
            unnamed_variant("A", path("A"), 1),
            unnamed_variant("B", path("B"), 2),
        ],
    }
}

#[test]
fn analyzer_binds_named_and_unnamed_payloads_alike() {
    let item = SumType {
        name: "Foo".to_string(),
        span: sp(0),
        generics: no_generics(),
        variants: vec![
            unnamed_variant("A", path("A"), 1),
            Variant {
                name: "B".to_string(),
                span: sp(2),
                fields: VariantFields::Named(vec![NamedField {
                    name: "inner".to_string(),
                    ty: path("B"),
                    span: sp(102),
                }]),
            },
        ],
    };
    let infos = variant_patterns(&item);
    assert_eq!(infos.len(), 2);
    let a = infos[0].as_ref().unwrap();
    assert_eq!(a.name, "A");
    assert_eq!(a.pattern.item, "Foo");
    assert_eq!(a.pattern.variant, "A");
    assert!(a.pattern.field.is_none());
    let b = infos[1].as_ref().unwrap();
    assert_eq!(b.pattern.field.as_deref(), Some("inner"));
    assert_eq!(render_sig(&b.ty), "B");
}

#[test]
fn analyzer_classifies_unit_and_multi_member_variants() {
    let item = SumType {
        name: "Foo".to_string(),
        span: sp(0),
        generics: no_generics(),
        variants: vec![
            unit_variant("A", 1),
            Variant {
                name: "B".to_string(),
                span: sp(2),
                fields: VariantFields::Named(vec![
                    NamedField { name: "x".to_string(), ty: path("X"), span: sp(102) },
                    NamedField { name: "y".to_string(), ty: path("Y"), span: sp(103) },
                ]),
            },
        ],
    };
    let infos = variant_patterns(&item);
    assert!(matches!(infos[0], Err(Error::UnitVariant(s)) if s == sp(1)));
    assert!(matches!(infos[1], Err(Error::MultipleMembers(s)) if s == sp(2)));
}

#[test]
fn embedding_totality_two_distinct_variants() {
    let item = two_variant_sum();
    let embs = derive_enum_from2(&item).unwrap();
    assert_eq!(embs.len(), 2);
    assert_eq!(embs[0].pattern.variant, "A");
    assert_eq!(embs[1].pattern.variant, "B");
    assert_eq!(render_sig(&embs[0].payload_ty), "A");
    assert_eq!(render_sig(&embs[1].payload_ty), "B");

    let built = apply_embedding(&embs[0], 42u32);
    assert_eq!(built.variant, "A");
    assert_eq!(built.value, 42);
    let built = apply_embedding(&embs[1], 7u32);
    assert_eq!(built.variant, "B");
    assert_eq!(built.value, 7);
}

#[test]
fn embedding_rejects_duplicate_payload_types() {
    let item = SumType {
        name: "Foo".to_string(),
        span: sp(0),
        generics: no_generics(),
        variants: vec![
            unnamed_variant("A", path("X"), 1),
            unnamed_variant("B", path("X"), 2),
        ],
    };
    let r = derive_enum_from2(&item);
    // the diagnostic points at the second variant's payload type
    assert!(matches!(r, Err(Error::DuplicateType(s)) if s == sp(102)));
}

#[test]
fn embedding_relabels_unit_variants_with_a_hint() {
    let item = SumType {
        name: "Foo".to_string(),
        span: sp(0),
        generics: no_generics(),
        variants: vec![unit_variant("A", 1), unnamed_variant("B", path("B"), 2)],
    };
    let r = derive_enum_from2(&item);
    match r {
        Err(e @ Error::Other(s, _)) => {
            assert_eq!(s, sp(1));
            assert_eq!(
                e.message(),
                "Cannot use unit enum variants with `Derive(From)`. If you are using the `forwarder` macro, make sure it is before any derives."
            );
        }
        _ => panic!("expected a re-labeled unit-variant failure"),
    }
}

#[test]
fn projection_round_trip_and_cross_failure() {
    let item = two_variant_sum();
    let embs = derive_enum_from2(&item).unwrap();
    let projs = derive_enum_tryinto2(&item).unwrap();
    assert_eq!(projs.len(), 2);
    assert_eq!(render_sig(&projs[0].target_ty), "A");
    assert_eq!(render_sig(&projs[1].target_ty), "B");
    assert_eq!(projs[0].arms.len(), 2);
    assert!(matches!(projs[0].arms[0].body, ArmBody::Success));
    assert!(matches!(projs[0].arms[1].body, ArmBody::Failure(_)));

    // projecting back to the originating payload type returns the payload
    let sv = apply_embedding(&embs[0], 42u32);
    assert_eq!(apply_projection(&projs[0], sv), Ok(42));

    // projecting to the other payload type fails, naming variant, sum
    // type, and target verbatim
    let sv = apply_embedding(&embs[0], 42u32);
    assert_eq!(
        apply_projection(&projs[1], sv),
        Err("Cannot convert Foo::A to B".to_string())
    );
    let sv = apply_embedding(&embs[1], 9u32);
    assert_eq!(
        apply_projection(&projs[0], sv),
        Err("Cannot convert Foo::B to A".to_string())
    );
    let sv = apply_embedding(&embs[1], 9u32);
    assert_eq!(apply_projection(&projs[1], sv), Ok(9));
}

#[test]
fn projection_merges_variants_sharing_a_payload_type() {
    let item = SumType {
        name: "Foo".to_string(),
        span: sp(0),
        generics: no_generics(),
        variants: vec![
            unnamed_variant("A", path("X"), 1),
            unnamed_variant("B", path("X"), 2),
        ],
    };
    let projs = derive_enum_tryinto2(&item).unwrap();
    // one projection per distinct target type, both variants succeed in it
    assert_eq!(projs.len(), 1);
    assert_eq!(projs[0].arms.len(), 2);
    assert!(matches!(projs[0].arms[0].body, ArmBody::Success));
    assert!(matches!(projs[0].arms[1].body, ArmBody::Success));
}

#[test]
fn projection_relabels_unit_variants_with_a_hint() {
    let item = SumType {
        name: "Foo".to_string(),
        span: sp(0),
        generics: no_generics(),
        variants: vec![unnamed_variant("B", path("B"), 2), unit_variant("A", 1)],
    };
    let r = derive_enum_tryinto2(&item);
    match r {
        Err(e @ Error::Other(s, _)) => {
            assert_eq!(s, sp(1));
            assert_eq!(
                e.message(),
                "Cannot use unit enum variants with `Derive(TryInto)`. If you are using the `forwarder` macro, make sure it is before any derives."
            );
        }
        _ => panic!("expected a re-labeled unit-variant failure"),
    }
}

#[test]
fn generics_are_propagated_unchanged() {
    let mut item = two_variant_sum();
    item.generics = Generics {
        params: vec!["T: Clone".to_string(), "'x".to_string()],
        wheres: vec!["T: Default".to_string()],
    };
    let embs = derive_enum_from2(&item).unwrap();
    assert_eq!(embs[0].generics.params, item.generics.params);
    assert_eq!(embs[0].generics.wheres, item.generics.wheres);
    let projs = derive_enum_tryinto2(&item).unwrap();
    assert_eq!(projs[1].generics.params, item.generics.params);
    assert_eq!(projs[1].generics.wheres, item.generics.wheres);
}

#[test]
fn empty_sum_type_synthesizes_nothing_and_succeeds() {
    let item = SumType {
        name: "Never".to_string(),
        span: sp(0),
        generics: no_generics(),
        variants: vec![],
    };
    assert_eq!(derive_enum_from2(&item).unwrap().len(), 0);
    assert_eq!(derive_enum_tryinto2(&item).unwrap().len(), 0);
}

#[test]
fn empty_braced_variant_counts_as_payload_absent() {
    let item = SumType {
        name: "Foo".to_string(),
        span: sp(0),
        generics: no_generics(),
        variants: vec![Variant {
            name: "A".to_string(),
            span: sp(1),
            fields: VariantFields::Named(vec![]),
        }],
    };
    let infos = variant_patterns(&item);
    assert!(matches!(infos[0], Err(Error::UnitVariant(s)) if s == sp(1)));
}

#[test]
fn error_messages_and_spans_surface() {
    let e = Error::MultipleMembers(sp(5));
    assert_eq!(e.span(), sp(5));
    assert_eq!(
        e.message(),
        "Enum variant has multiple members, and cannot be converted to or from an inner type"
    );
    let e = Error::UnitVariant(sp(6));
    assert_eq!(
        e.message(),
        "Enum variant is a unit variant, and cannot be converted to or from an inner type"
    );
    let e = Error::DuplicateType(sp(7));
    assert_eq!(e.message(), "Enum has multiple variants with the same type.");
    let e = Error::Parse(sp(8), "unexpected token".to_string());
    assert_eq!(e.message(), "unexpected token");
    assert_eq!(e.span(), sp(8));
}
