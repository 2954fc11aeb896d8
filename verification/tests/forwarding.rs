use enum_forward::Forward;
use enum_forward::ast::{
    Generics, NamedField, Span, SumType, TypeExpr, UnnamedField, Variant, VariantFields,
    render_sig,
};
use enum_forward::capture::{FnParam, InputAttr, InputFn, forward_to, separate_receiver};
use enum_forward::dispatch::forwarding2;
use enum_forward::error::Error;
use enum_forward::normalize::{ScopeSet, lifetimeify};
use enum_forward::prepare;

fn sp(n: usize) -> Span {
    Span { lo: n, hi: n + 1 }
}

fn no_generics() -> Generics {
    Generics { params: vec![], wheres: vec![] }
}

fn path(name: &str) -> TypeExpr {
    TypeExpr::Path(name.to_string())
}

fn unnamed_variant(name: &str, ty: TypeExpr, n: usize) -> Variant {
    Variant {
        name: name.to_string(),
        span: sp(n),
        fields: VariantFields::Unnamed(vec![UnnamedField { ty, span: sp(n + 100) }]),
    }
}

fn unit_variant(name: &str, n: usize) -> Variant {
    Variant { name: name.to_string(), span: sp(n), fields: VariantFields::Unit }
}

fn two_variant_sum() -> SumType {
    SumType {
        name: "Foo".to_string(),
        span: sp(0),
        generics: no_generics(),
        variants: vec![
            unnamed_variant("A", path("A"), 1),
            unnamed_variant("B", path("B"), 2),
        ],
    }
}

#[test]
fn dispatch_has_one_constraint_per_distinct_type_and_one_arm_per_variant() {
    let item = two_variant_sum();
    let d = forwarding2(&item).unwrap();
    assert_eq!(d.item, "Foo");
    assert_eq!(d.input_param, "I");
    assert_eq!(d.output_param, "R");
    assert_eq!(d.constraints.len(), 2);
    assert_eq!(render_sig(&d.constraints[0]), "A");
    assert_eq!(render_sig(&d.constraints[1]), "B");
    assert_eq!(d.arms.len(), 2);
    assert_eq!(d.arms[0].pattern.variant, "A");
    assert_eq!(d.arms[1].pattern.variant, "B");
    assert_eq!(render_sig(&d.arms[1].payload_ty), "B");
}

#[test]
fn dispatch_elides_duplicate_constraints() {
    let item = SumType {
        name: "Foo".to_string(),
        span: sp(0),
        generics: no_generics(),
        variants: vec![
            unnamed_variant("A", path("X"), 1),
            unnamed_variant("B", path("X"), 2),
        ],
    };
    let d = forwarding2(&item).unwrap();
    assert_eq!(d.constraints.len(), 1);
    assert_eq!(d.arms.len(), 2);
}

#[test]
fn dispatch_surfaces_unit_variants_unrelabeled() {
    let item = SumType {
        name: "Foo".to_string(),
        span: sp(0),
        generics: no_generics(),
        variants: vec![unit_variant("A", 1)],
    };
    let r = forwarding2(&item);
    assert!(matches!(r, Err(Error::UnitVariant(s)) if s == sp(1)));
}

struct GreetA;
struct GreetB;

impl Forward<u32> for GreetA {
    type Output = &'static str;

    fn forward(&self, _input: &u32) -> &'static str {
        "A"
    }
}

impl Forward<u32> for GreetB {
    type Output = &'static str;

    fn forward(&self, _input: &u32) -> &'static str {
        "B"
    }
}

enum Greeting {
    A(GreetA),
    B(GreetB),
}

// the shape of the implementation the Dispatch Synthesizer describes:
// one arm per variant, each delegating to the payload's own implementation
impl Forward<u32> for Greeting {
    type Output = &'static str;

    fn forward(&self, input: &u32) -> &'static str {
        match self {
            Greeting::A(value) => Forward::forward(value, input),
            Greeting::B(value) => Forward::forward(value, input),
        }
    }
}

#[test]
fn dispatch_delegates_to_the_active_variant() {
    let a = Greeting::A(GreetA);
    let b = Greeting::B(GreetB);
    assert_eq!(a.forward(&5), GreetA.forward(&5));
    assert_eq!(b.forward(&5), GreetB.forward(&5));
    assert_eq!(a.forward(&5), "A");
    assert_eq!(b.forward(&5), "B");
}

#[test]
fn unit_variants_gain_a_marker_payload_named_after_them() {
    let item = SumType {
        name: "Foo".to_string(),
        span: sp(0),
        generics: no_generics(),
        variants: vec![unit_variant("A", 1), unnamed_variant("B", path("B"), 2)],
    };
    let out = prepare::forwarding2(&vec!["GetName".to_string()], &item).unwrap();
    assert_eq!(out.name, "Foo");
    assert_eq!(out.variants.len(), 2);
    match &out.variants[0].fields {
        VariantFields::Unnamed(fs) => {
            assert_eq!(fs.len(), 1);
            assert_eq!(render_sig(&fs[0].ty), "A");
        }
        _ => panic!("expected a single unnamed marker payload"),
    }
    match &out.variants[1].fields {
        VariantFields::Unnamed(fs) => {
            assert_eq!(fs.len(), 1);
            assert_eq!(render_sig(&fs[0].ty), "B");
        }
        _ => panic!("expected the conforming variant to stay unchanged"),
    }
}

#[test]
fn normalization_rejects_multi_member_variants() {
    let item = SumType {
        name: "Foo".to_string(),
        span: sp(0),
        generics: no_generics(),
        variants: vec![Variant {
            name: "A".to_string(),
            span: sp(1),
            fields: VariantFields::Named(vec![
                NamedField { name: "x".to_string(), ty: path("X"), span: sp(101) },
                NamedField { name: "y".to_string(), ty: path("Y"), span: sp(102) },
            ]),
        }],
    };
    let r = prepare::forwarding2(&vec![], &item);
    match r {
        Err(e @ Error::Other(s, _)) => {
            assert_eq!(s, sp(1));
            assert_eq!(e.message(), "Only one field allowed on each variant");
        }
        _ => panic!("expected the multi-member variant to be rejected"),
    }
}

fn sorted_tags(s: &ScopeSet) -> Vec<String> {
    let mut tags = s.tags.clone();
    tags.sort();
    tags
}

#[test]
fn scope_normalization_tags_bare_references_and_records_tags() {
    // (&'a A, &mut B, [&C])
    let ty = TypeExpr::Tuple(vec![
        TypeExpr::Ref(Some("a".to_string()), false, Box::new(path("A"))),
        TypeExpr::Ref(None, true, Box::new(path("B"))),
        TypeExpr::Slice(Box::new(TypeExpr::Ref(None, false, Box::new(path("C"))))),
    ]);
    let blanket = "_blanket".to_string();
    let mut scopes = ScopeSet::new();
    let n1 = lifetimeify(&ty, &blanket, &mut scopes);
    assert_eq!(render_sig(&n1), "(&'a A,&'_blanket mut B,[&'_blanket C],)");
    assert_eq!(sorted_tags(&scopes), vec!["_blanket".to_string(), "a".to_string()]);
}

#[test]
fn scope_normalization_is_idempotent() {
    let ty = TypeExpr::Tuple(vec![
        TypeExpr::Ref(Some("a".to_string()), false, Box::new(path("A"))),
        TypeExpr::Ref(None, true, Box::new(path("B"))),
    ]);
    let blanket = "_blanket".to_string();
    let mut first = ScopeSet::new();
    let n1 = lifetimeify(&ty, &blanket, &mut first);
    let mut second = ScopeSet::new();
    let n2 = lifetimeify(&n1, &blanket, &mut second);
    // identical result both times, identical recorded scope set
    assert_eq!(render_sig(&n2), render_sig(&n1));
    assert_eq!(sorted_tags(&second), sorted_tags(&first));
}

fn typed(pat: &str, ty: TypeExpr, n: usize) -> FnParam {
    FnParam::Typed { pat: pat.to_string(), pat_span: sp(n), ty, ty_span: sp(n + 100) }
}

#[test]
fn capture_separates_receiver_and_keeps_argument_order() {
    // f(self: Receiver, x: &Borrowed, y: Owned) forwarded to Receiver
    let attr = InputAttr { pat: None, ty: path("Receiver"), traits: vec!["GetName".to_string()] };
    let func = InputFn {
        name: "f".to_string(),
        generics: no_generics(),
        inputs: vec![
            FnParam::Receiver { ty: path("Receiver"), span: sp(1) },
            typed("x", TypeExpr::Ref(None, false, Box::new(path("Borrowed"))), 2),
            typed("y", path("Owned"), 3),
        ],
        output: Some(path("R")),
    };
    let out = forward_to(&attr, &func).unwrap();
    let recv = out.receiver.unwrap();
    assert_eq!(recv.pat, "_self");
    assert_eq!(render_sig(&recv.ty), "Receiver");
    // exactly the fields x (scope-normalized) and y, in that order
    assert_eq!(out.record.fields.len(), 2);
    assert_eq!(out.record.fields[0].pat, "x");
    assert_eq!(render_sig(&out.record.fields[0].ty), "&'_blanket Borrowed");
    assert_eq!(out.record.fields[1].pat, "y");
    assert_eq!(render_sig(&out.record.fields[1].ty), "Owned");
    assert_eq!(out.record.name, "fVisitor");
    assert_eq!(out.record.blanket, "_blanket");
    assert!(out.record.scopes.tags.contains(&"_blanket".to_string()));
    assert_eq!(out.blanket_impl.bound_param, "B");
    assert_eq!(out.blanket_impl.traits, vec!["GetName".to_string()]);
    assert_eq!(out.blanket_impl.input_ty, "fVisitor");
    assert_eq!(render_sig(&out.blanket_impl.result_ty), "R");
}

#[test]
fn capture_takes_explicit_receiver_by_pattern_and_type() {
    let attr = InputAttr {
        pat: Some("r".to_string()),
        ty: path("Receiver"),
        traits: vec![],
    };
    let inputs = vec![
        typed("r", path("Receiver"), 1),
        typed("x", path("X"), 2),
    ];
    let (recv, args) = separate_receiver(&attr, &inputs).unwrap();
    let recv = recv.unwrap();
    assert_eq!(recv.pat, "r");
    assert_eq!(render_sig(&recv.ty), "Receiver");
    assert_eq!(args.len(), 1);
    assert_eq!(args[0].pat, "x");
}

#[test]
fn capture_rejects_a_parameter_matching_only_the_receiver_type() {
    let attr = InputAttr { pat: Some("r".to_string()), ty: path("Receiver"), traits: vec![] };
    let inputs = vec![typed("other", path("Receiver"), 1)];
    let r = separate_receiver(&attr, &inputs);
    // the diagnostic points at the pattern that failed to match
    assert!(matches!(r, Err(Error::MismatchedArgType(s)) if s == sp(1)));
}

#[test]
fn capture_rejects_a_parameter_matching_only_the_receiver_pattern() {
    let attr = InputAttr { pat: Some("r".to_string()), ty: path("Receiver"), traits: vec![] };
    let inputs = vec![typed("r", path("Elsewhere"), 1)];
    let r = separate_receiver(&attr, &inputs);
    // the diagnostic points at the type that failed to match
    assert!(matches!(r, Err(Error::MismatchedArgType(s)) if s == sp(101)));
}

#[test]
fn capture_with_no_return_type_produces_a_unit_result() {
    let attr = InputAttr { pat: None, ty: path("Receiver"), traits: vec![] };
    let func = InputFn {
        name: "g".to_string(),
        generics: no_generics(),
        inputs: vec![FnParam::Receiver { ty: path("Receiver"), span: sp(1) }],
        output: None,
    };
    let out = forward_to(&attr, &func).unwrap();
    assert_eq!(out.record.fields.len(), 0);
    assert_eq!(render_sig(&out.blanket_impl.result_ty), "()");
}

#[test]
fn second_implicit_receiver_is_captured_as_an_argument() {
    let attr = InputAttr { pat: None, ty: path("Receiver"), traits: vec![] };
    let inputs = vec![
        FnParam::Receiver { ty: path("Receiver"), span: sp(1) },
        typed("x", path("X"), 2),
        FnParam::Receiver { ty: TypeExpr::Ref(None, false, Box::new(path("Self"))), span: sp(3) },
    ];
    // walking from the back, the trailing implicit receiver is found first
    // and taken as the receiver; the leading one is then captured as an
    // argument under the canonical `_self` binding
    let (recv, args) = separate_receiver(&attr, &inputs).unwrap();
    assert!(recv.is_some());
    assert_eq!(args.len(), 2);
    assert_eq!(args[0].pat, "_self");
    assert_eq!(args[1].pat, "x");
}

#[test]
fn rendered_signatures_are_canonical() {
    assert_eq!(render_sig(&path("u8")), "u8");
    assert_eq!(
        render_sig(&TypeExpr::Array(Box::new(path("u8")), "4".to_string())),
        "[u8;4]"
    );
    assert_eq!(render_sig(&TypeExpr::Paren(Box::new(path("u8")))), "(u8)");
    assert_eq!(render_sig(&TypeExpr::Group(Box::new(path("u8")))), "u8");
    assert_eq!(render_sig(&TypeExpr::Ptr(true, Box::new(path("u8")))), "*mut u8");
    assert_eq!(render_sig(&TypeExpr::Ptr(false, Box::new(path("u8")))), "*const u8");
    assert_eq!(render_sig(&TypeExpr::Slice(Box::new(path("u8")))), "[u8]");
    assert_eq!(
        render_sig(&TypeExpr::Ref(Some("a".to_string()), true, Box::new(path("u8")))),
        "&'a mut u8"
    );
    assert_eq!(render_sig(&TypeExpr::Tuple(vec![])), "()");
    assert_eq!(
        render_sig(&TypeExpr::Tuple(vec![path("u8"), path("bool")])),
        "(u8,bool,)"
    );
}

#[test]
fn scope_set_records_each_tag_once() {
    let mut s = ScopeSet::new();
    s.insert("a".to_string());
    s.insert("b".to_string());
    s.insert("a".to_string());
    assert_eq!(s.tags, vec!["a".to_string(), "b".to_string()]);
    assert!(s.contains_tag(&"a".to_string()));
    assert!(!s.contains_tag(&"c".to_string()));
}
